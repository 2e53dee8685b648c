//! Skills by name, and the ledger of their activations.

use vstd::prelude::*;
use vstd::utf8::encode_utf8;

use crate::engine::StorageEngine;
use crate::error::{
    conflict, conflicting, corrupt, invalid_data, list_outcome, outcome_of, Refusal, StorageResult,
};
use crate::numbers::STORED_MAX;
use crate::order::{is_order, ordered, SortKey};
use crate::rows::{
    SkillActivationOwner, SkillActivationTrigger, SkillNameState, StoredSkillActivation,
};
use crate::table::{any, first, first_is_found, kept, position, some_row, some_row_in_parts};
use crate::text::same_text;

verus! {

/// The number of bytes that an activation's identifier may take.
pub const ACTIVATION_ID_LIMIT: usize = 128;

/// The owner of an activation is its session, or some delegated task.
pub open spec fn owner_matches(activation: StoredSkillActivation) -> bool {
    match activation.owner {
        SkillActivationOwner::Session(session_id) => session_id@ == activation.session_id@,
        SkillActivationOwner::ChildTask(child_task_id) => child_task_id@.len() > 0,
    }
}

/// An activation that the ledger may hold.
pub open spec fn valid_activation(activation: StoredSkillActivation) -> bool {
    &&& activation.activation_id@.len() > 0
    &&& encode_utf8(activation.activation_id@).len() <= ACTIVATION_ID_LIMIT
    &&& owner_matches(activation)
    &&& activation.catalog_revision@.len() > 0
    &&& activation.definition_digest@.len() > 0
}

/// Whether the ledger may hold an activation.
pub fn validate_activation(activation: &StoredSkillActivation) -> (result: StorageResult<()>)
    ensures
        valid_activation(*activation) ==> result is Ok,
        !valid_activation(*activation) ==> result is Err && result->Err_0@ == corrupt(
            "skill activation is invalid"@,
        ),
{
    let owned = match &activation.owner {
        SkillActivationOwner::Session(session_id) => *session_id == activation.session_id,
        SkillActivationOwner::ChildTask(child_task_id) => !child_task_id.as_str().is_empty(),
    };
    let id = activation.activation_id.as_str();
    if id.is_empty() || id.as_bytes().len() > ACTIVATION_ID_LIMIT || !owned
        || activation.catalog_revision.as_str().is_empty()
        || activation.definition_digest.as_str().is_empty() {
        return Err(invalid_data("skill activation is invalid"));
    }
    Ok(())
}

/// The condition of having an activation identifier.
pub open spec fn has_activation_id(activation_id: Seq<char>) -> spec_fn(
    StoredSkillActivation,
) -> bool {
    |row: StoredSkillActivation| row.activation_id@ == activation_id
}

/// The ledger with one more activation, or why it cannot be added.
pub open spec fn with_activation(
    ledger: Seq<StoredSkillActivation>,
    activation: StoredSkillActivation,
) -> Result<Seq<StoredSkillActivation>, Refusal> {
    if !valid_activation(activation) {
        Err(corrupt("skill activation is invalid"@))
    } else if some_row(ledger, has_activation_id(activation.activation_id@)) {
        Err(conflicting("skill activation could not be saved"@))
    } else {
        Ok(ledger.push(activation))
    }
}

/// The ledger with more activations, or why one of them cannot be added.
pub open spec fn with_activations(
    ledger: Seq<StoredSkillActivation>,
    activations: Seq<StoredSkillActivation>,
) -> Result<Seq<StoredSkillActivation>, Refusal>
    decreases activations.len(),
{
    if activations.len() == 0 {
        Ok(ledger)
    } else {
        match with_activations(ledger, activations.drop_last()) {
            Err(error) => Err(error),
            Ok(earlier) => with_activation(earlier, activations.last()),
        }
    }
}

proof fn refused_activation_refuses_all(
    ledger: Seq<StoredSkillActivation>,
    activations: Seq<StoredSkillActivation>,
    n: int,
)
    requires
        0 <= n <= activations.len(),
        with_activations(ledger, activations.take(n)) is Err,
    ensures
        with_activations(ledger, activations) == with_activations(ledger, activations.take(n)),
    decreases activations.len() - n,
{
    if n < activations.len() {
        assert(activations.take(n + 1).drop_last() =~= activations.take(n));
        refused_activation_refuses_all(ledger, activations, n + 1);
    } else {
        assert(activations.take(n) =~= activations);
    }
}

proof fn accepted_activations_are_appended(
    ledger: Seq<StoredSkillActivation>,
    activations: Seq<StoredSkillActivation>,
)
    ensures
        with_activations(ledger, activations) is Ok ==> with_activations(ledger, activations)->Ok_0
            == ledger + activations,
    decreases activations.len(),
{
    if activations.len() == 0 {
        assert(ledger + activations =~= ledger);
    } else {
        accepted_activations_are_appended(ledger, activations.drop_last());
        assert((ledger + activations.drop_last()).push(activations.last()) =~= ledger
            + activations);
    }
}

/// Whether the ledger takes activations, all of them.
pub fn check_activations(
    ledger: &Vec<StoredSkillActivation>,
    activations: &Vec<StoredSkillActivation>,
) -> (result: StorageResult<()>)
    ensures
        match with_activations(ledger@, activations@) {
            Ok(rows) => result is Ok && rows == ledger@ + activations@,
            Err(error) => result is Err && result->Err_0@ == error,
        },
{
    let mut i: usize = 0;
    proof {
        assert(activations@.take(0) =~= Seq::empty());
        accepted_activations_are_appended(ledger@, activations@);
    }
    while i < activations.len()
        invariant
            i <= activations@.len(),
            with_activations(ledger@, activations@.take(i as int)) is Ok,
        decreases activations@.len() - i,
    {
        let activation = &activations[i];
        let ghost earlier = activations@.take(i as int);
        let ghost condition = has_activation_id(activation.activation_id@);
        proof {
            let longer = activations@.take(i + 1);
            assert(longer.drop_last() =~= earlier);
            assert(longer.last() == *activation);
            if with_activations(ledger@, longer) is Err {
                refused_activation_refuses_all(ledger@, activations@, i + 1);
            }
            accepted_activations_are_appended(ledger@, earlier);
            some_row_in_parts(ledger@, earlier, condition);
        }
        match validate_activation(activation) {
            Ok(_) => {},
            Err(error) => {
                return Err(error);
            },
        }
        if any(
            ledger,
            Ghost(condition),
            |row: &StoredSkillActivation| -> (same: bool)
                ensures
                    same == (row.activation_id@ == activation.activation_id@)
                { row.activation_id == activation.activation_id },
        ) {
            return Err(conflict("skill activation could not be saved"));
        }
        let mut j: usize = 0;
        while j < i
            invariant
                j <= i < activations@.len(),
                earlier == activations@.take(i as int),
                *activation == activations@[i as int],
                condition == has_activation_id(activation.activation_id@),
                !some_row(ledger@, condition),
                valid_activation(*activation),
                some_row(ledger@ + earlier, condition) == (some_row(ledger@, condition)
                    || some_row(earlier, condition)),
                with_activations(ledger@, activations@.take(i + 1)) is Err ==> with_activations(
                    ledger@,
                    activations@,
                ) == with_activations(ledger@, activations@.take(i + 1)),
                with_activations(ledger@, activations@.take(i + 1)) == with_activation(
                    ledger@ + earlier,
                    *activation,
                ),
                forall|k: int| 0 <= k < j ==> !condition(#[trigger] earlier[k]),
            decreases i - j,
        {
            if activations[j].activation_id == activation.activation_id {
                assert(condition(earlier[j as int]));
                return Err(conflict("skill activation could not be saved"));
            }
            assert(earlier[j as int] == activations@[j as int]);
            j += 1;
        }
        i += 1;
    }
    proof {
        assert(activations@.take(activations@.len() as int) =~= activations@);
    }
    Ok(())
}

/// Adds activations to the ledger.
pub fn append_activations(
    ledger: &mut Vec<StoredSkillActivation>,
    activations: &Vec<StoredSkillActivation>,
)
    ensures
        final(ledger)@ == old(ledger)@ + activations@,
{
    let ghost before = ledger@;
    let mut i: usize = 0;
    while i < activations.len()
        invariant
            i <= activations@.len(),
            ledger@ =~= before + activations@.take(i as int),
        decreases activations@.len() - i,
    {
        ledger.push(activations[i].copy());
        i += 1;
    }
    proof {
        assert(activations@.take(activations@.len() as int) =~= activations@);
    }
}

/// A request to offer the skills of a name, or not to.
#[derive(Debug)]
pub struct SkillNameStateChange {
    pub name: String,
    pub enabled: bool,
    pub updated_at_ms: u64,
}

/// The condition of being the state of a name.
pub open spec fn is_state_of(name: Seq<char>) -> spec_fn(SkillNameState) -> bool {
    |row: SkillNameState| row.name@ == name
}

/// The states with one changed or added.
pub open spec fn with_state(rows: Seq<SkillNameState>, change: SkillNameStateChange) -> Seq<
    SkillNameState,
> {
    match first(rows, is_state_of(change.name@)) {
        Some(i) => rows.update(
            i,
            SkillNameState {
                enabled: change.enabled,
                updated_at_ms: change.updated_at_ms,
                ..rows[i]
            },
        ),
        None => rows.push(
            SkillNameState {
                name: change.name,
                enabled: change.enabled,
                updated_at_ms: change.updated_at_ms,
            },
        ),
    }
}

/// What states are ordered by.
pub open spec fn state_keys(rows: Seq<SkillNameState>) -> Seq<SortKey> {
    rows.map_values(|row: SkillNameState| SortKey { rank: 0, time: 0, id: row.name })
}

/// Rows in an order.
pub open spec fn arranged<R>(rows: Seq<R>, order: Seq<usize>, list: Seq<R>) -> bool {
    &&& list.len() == order.len()
    &&& forall|k: int| 0 <= k < list.len() ==> #[trigger] list[k] == rows[order[k] as int]
}

/// The state of a name from its columns. Whether skills may have the name is for the caller to find
/// out.
pub fn decode_skill_name_state(
    name: String,
    name_is_valid: bool,
    enabled: i64,
    updated_at_ms: i64,
) -> (result: StorageResult<SkillNameState>)
    ensures
        name_is_valid && (enabled == 0 || enabled == 1) && updated_at_ms >= 0 ==> result is Ok
            && result->Ok_0 == (SkillNameState {
            name,
            enabled: enabled == 1,
            updated_at_ms: updated_at_ms as u64,
        }),
        !(name_is_valid && (enabled == 0 || enabled == 1) && updated_at_ms >= 0) ==> result is Err
            && result->Err_0@ == corrupt("skill name state is invalid"@),
{
    if !name_is_valid || (enabled != 0 && enabled != 1) || updated_at_ms < 0 {
        return Err(invalid_data("skill name state is invalid"));
    }
    Ok(SkillNameState { name, enabled: enabled == 1, updated_at_ms: updated_at_ms as u64 })
}

/// The columns of an activation as they are stored. Whether skills may have the name is for the
/// caller to find out.
#[derive(Debug)]
pub struct ActivationColumns {
    pub activation_id: String,
    pub session_id: String,
    pub owner_kind: String,
    pub owner_id: String,
    pub run_id: Option<String>,
    pub input_id: Option<String>,
    pub message_id: String,
    pub name: String,
    pub name_is_valid: bool,
    pub catalog_revision: String,
    pub definition_digest: String,
    pub trigger: String,
    pub created_at_ms: i64,
}

/// The owner that columns name: the session itself, or one of its delegated tasks.
pub open spec fn owner_in(columns: ActivationColumns) -> Option<SkillActivationOwner> {
    if columns.owner_kind@ == "session"@ && columns.owner_id@ == columns.session_id@ {
        Some(SkillActivationOwner::Session(columns.session_id))
    } else if columns.owner_kind@ == "child_task"@ && columns.owner_kind@ != "session"@
        && columns.owner_id@.len() > 0 {
        Some(SkillActivationOwner::ChildTask(columns.owner_id))
    } else {
        None
    }
}

/// Who activated a skill, by the text that stands for it.
pub open spec fn trigger_in(text: Seq<char>) -> Option<SkillActivationTrigger> {
    if text == "user"@ {
        Some(SkillActivationTrigger::User)
    } else if text == "model"@ {
        Some(SkillActivationTrigger::Model)
    } else {
        None
    }
}

/// The activation that columns make.
pub open spec fn activation_in(columns: ActivationColumns) -> StoredSkillActivation {
    StoredSkillActivation {
        activation_id: columns.activation_id,
        session_id: columns.session_id,
        owner: owner_in(columns)->0,
        run_id: columns.run_id,
        input_id: columns.input_id,
        message_id: columns.message_id,
        name: columns.name,
        catalog_revision: columns.catalog_revision,
        definition_digest: columns.definition_digest,
        trigger: trigger_in(columns.trigger@)->0,
        created_at_ms: columns.created_at_ms,
    }
}

/// Why columns make no activation.
pub open spec fn activation_refusal(columns: ActivationColumns) -> Option<Refusal> {
    if owner_in(columns) is None {
        Some(corrupt("skill activation owner is invalid"@))
    } else if !columns.name_is_valid {
        Some(corrupt("skill activation name is invalid"@))
    } else if trigger_in(columns.trigger@) is None {
        Some(corrupt("skill activation trigger is invalid"@))
    } else if !valid_activation(activation_in(columns)) {
        Some(corrupt("skill activation is invalid"@))
    } else {
        None
    }
}

/// Reads an activation from its columns.
pub fn decode_skill_activation(columns: ActivationColumns) -> (result: StorageResult<
    StoredSkillActivation,
>)
    ensures
        match activation_refusal(columns) {
            Some(error) => result is Err && result->Err_0@ == error,
            None => result is Ok && result->Ok_0 == activation_in(columns),
        },
{
    let owner = if same_text(columns.owner_kind.as_str(), "session") {
        if columns.owner_id != columns.session_id {
            return Err(invalid_data("skill activation owner is invalid"));
        }
        SkillActivationOwner::Session(columns.session_id.clone())
    } else if same_text(columns.owner_kind.as_str(), "child_task") {
        if columns.owner_id.as_str().is_empty() {
            return Err(invalid_data("skill activation owner is invalid"));
        }
        SkillActivationOwner::ChildTask(columns.owner_id)
    } else {
        return Err(invalid_data("skill activation owner is invalid"));
    };
    if !columns.name_is_valid {
        return Err(invalid_data("skill activation name is invalid"));
    }
    let trigger = if same_text(columns.trigger.as_str(), "user") {
        SkillActivationTrigger::User
    } else if same_text(columns.trigger.as_str(), "model") {
        SkillActivationTrigger::Model
    } else {
        return Err(invalid_data("skill activation trigger is invalid"));
    };
    let activation = StoredSkillActivation {
        activation_id: columns.activation_id,
        session_id: columns.session_id,
        owner,
        run_id: columns.run_id,
        input_id: columns.input_id,
        message_id: columns.message_id,
        name: columns.name,
        catalog_revision: columns.catalog_revision,
        definition_digest: columns.definition_digest,
        trigger,
        created_at_ms: columns.created_at_ms,
    };
    match validate_activation(&activation) {
        Ok(_) => Ok(activation),
        Err(error) => Err(error),
    }
}

/// The condition of belonging to a session, where one is given.
pub open spec fn activation_in_scope(scope: Option<String>) -> spec_fn(
    StoredSkillActivation,
) -> bool {
    |row: StoredSkillActivation| scope is None || row.session_id@ == scope->0@
}

/// What activations are ordered by.
pub open spec fn activation_keys(rows: Seq<StoredSkillActivation>) -> Seq<SortKey> {
    rows.map_values(
        |row: StoredSkillActivation|
            SortKey { rank: 0, time: row.created_at_ms, id: row.activation_id },
    )
}

/// Activations, earlier ones first: all of them, or that one of them is invalid.
pub open spec fn activations_listed(
    rows: Seq<StoredSkillActivation>,
    order: Seq<usize>,
    outcome: Result<Seq<StoredSkillActivation>, Refusal>,
) -> bool {
    &&& is_order(activation_keys(rows), order)
    &&& match outcome {
        Ok(list) => {
            &&& arranged(rows, order, list)
            &&& forall|k: int| 0 <= k < list.len() ==> valid_activation(#[trigger] list[k])
        },
        Err(error) => {
            &&& exists|k: int| 0 <= k < rows.len() && !valid_activation(#[trigger] rows[k])
            &&& error == corrupt("skill activation is invalid"@)
        },
    }
}

/// A skill was turned on or off, or refused to be.
pub open spec fn skill_set(
    before: StorageEngine,
    after: StorageEngine,
    change: SkillNameStateChange,
    outcome: Result<SkillNameState, Refusal>,
) -> bool {
    if change.updated_at_ms > STORED_MAX {
        after == before && outcome == Err::<SkillNameState, _>(
            corrupt("skill name state timestamp is invalid"@),
        )
    } else {
        &&& outcome is Ok
        &&& outcome->Ok_0 == (SkillNameState {
            name: change.name,
            enabled: change.enabled,
            updated_at_ms: change.updated_at_ms,
        })
        &&& after == (StorageEngine { skill_name_states: after.skill_name_states, ..before })
        &&& after.skill_name_states@ == with_state(before.skill_name_states@, change)
    }
}

impl StorageEngine {
    /// The names that were switched, in their order. A name without a state is offered.
    pub fn list_skill_name_states(&self) -> (list: Vec<SkillNameState>)
        ensures
            exists|order: Seq<usize>| #[trigger]
                is_order(state_keys(self.skill_name_states@), order) && arranged(
                    self.skill_name_states@,
                    order,
                    list@,
                ),
    {
        let mut keys: Vec<SortKey> = Vec::new();
        let mut i: usize = 0;
        while i < self.skill_name_states.len()
            invariant
                i <= self.skill_name_states@.len(),
                keys@ =~= state_keys(self.skill_name_states@).take(i as int),
            decreases self.skill_name_states@.len() - i,
        {
            keys.push(SortKey { rank: 0, time: 0, id: self.skill_name_states[i].name.clone() });
            i += 1;
        }
        proof {
            let all = state_keys(self.skill_name_states@);
            assert(all.take(all.len() as int) =~= all);
        }
        let order = ordered(&keys);
        let mut list: Vec<SkillNameState> = Vec::new();
        let mut k: usize = 0;
        while k < order.len()
            invariant
                k <= order@.len(),
                list@.len() == k,
                is_order(state_keys(self.skill_name_states@), order@),
                forall|j: int|
                    0 <= j < k ==> #[trigger] list@[j]
                        == self.skill_name_states@[order@[j] as int],
            decreases order@.len() - k,
        {
            list.push(self.skill_name_states[order[k]].copy());
            k += 1;
        }
        proof {
            assert(arranged(self.skill_name_states@, order@, list@));
        }
        list
    }

    /// Offers the skills of a name, or stops offering them.
    pub fn set_skill_enabled(&mut self, change: SkillNameStateChange) -> (result: StorageResult<
        SkillNameState,
    >)
        ensures
            skill_set(*old(self), *final(self), change, outcome_of(result)),
            change.updated_at_ms > STORED_MAX ==> {
                &&& result is Err && result->Err_0@ == corrupt(
                    "skill name state timestamp is invalid"@,
                )
                &&& *final(self) == *old(self)
            },
            change.updated_at_ms <= STORED_MAX ==> {
                &&& result is Ok
                &&& result->Ok_0 == (SkillNameState {
                    name: change.name,
                    enabled: change.enabled,
                    updated_at_ms: change.updated_at_ms,
                })
                &&& *final(self) == (StorageEngine {
                    skill_name_states: final(self).skill_name_states,
                    ..*old(self)
                })
                &&& final(self).skill_name_states@ == with_state(
                    old(self).skill_name_states@,
                    change,
                )
            },
    {
        if change.updated_at_ms > STORED_MAX {
            return Err(invalid_data("skill name state timestamp is invalid"));
        }
        let ghost rows = self.skill_name_states@;
        let name = &change.name;
        match position(
            &self.skill_name_states,
            Ghost(is_state_of(name@)),
            |row: &SkillNameState| -> (found: bool)
                ensures
                    found == (row.name@ == name@)
                { row.name == *name },
        ) {
            Some(place) => {
                self.skill_name_states[place].enabled = change.enabled;
                self.skill_name_states[place].updated_at_ms = change.updated_at_ms;
                proof {
                    assert(self.skill_name_states@ =~= with_state(rows, change));
                }
            },
            None => self.skill_name_states.push(
                SkillNameState {
                    name: name.clone(),
                    enabled: change.enabled,
                    updated_at_ms: change.updated_at_ms,
                },
            ),
        }
        Ok(
            SkillNameState {
                name: change.name,
                enabled: change.enabled,
                updated_at_ms: change.updated_at_ms,
            },
        )
    }

    /// The activations of one session, or of all, earlier ones first.
    pub fn load_skill_activations(&self, scope: &Option<String>) -> (result: StorageResult<
        Vec<StoredSkillActivation>,
    >)
        ensures
            exists|order: Seq<usize>| #[trigger]
                activations_listed(
                    kept(self.skill_activations@, activation_in_scope(*scope)),
                    order,
                    list_outcome(result),
                ),
    {
        let ghost condition = activation_in_scope(*scope);
        let mut rows: Vec<StoredSkillActivation> = Vec::new();
        let mut keys: Vec<SortKey> = Vec::new();
        let mut i: usize = 0;
        proof {
            assert(self.skill_activations@.take(0) =~= Seq::empty());
        }
        while i < self.skill_activations.len()
            invariant
                i <= self.skill_activations@.len(),
                condition == activation_in_scope(*scope),
                rows@ == kept(self.skill_activations@.take(i as int), condition),
                keys@ =~= activation_keys(rows@),
            decreases self.skill_activations@.len() - i,
        {
            let row = &self.skill_activations[i];
            proof {
                let longer = self.skill_activations@.take(i + 1);
                assert(longer.drop_last() =~= self.skill_activations@.take(i as int));
                assert(longer.last() == *row);
            }
            let inside = match scope {
                None => true,
                Some(session_id) => row.session_id == *session_id,
            };
            if inside {
                rows.push(row.copy());
                keys.push(SortKey { rank: 0, time: row.created_at_ms, id: row.activation_id.clone() });
            }
            i += 1;
        }
        proof {
            let all = self.skill_activations@;
            assert(all.take(all.len() as int) =~= all);
        }
        let order = ordered(&keys);
        let mut list: Vec<StoredSkillActivation> = Vec::new();
        let mut k: usize = 0;
        while k < order.len()
            invariant
                k <= order@.len(),
                list@.len() == k,
                rows@ == kept(self.skill_activations@, activation_in_scope(*scope)),
                is_order(activation_keys(rows@), order@),
                forall|j: int|
                    0 <= j < k ==> #[trigger] list@[j] == rows@[order@[j] as int]
                        && valid_activation(list@[j]),
            decreases order@.len() - k,
        {
            let row = &rows[order[k]];
            match validate_activation(row) {
                Ok(_) => {
                    list.push(row.copy());
                },
                Err(error) => {
                    proof {
                        assert(!valid_activation(rows@[order@[k as int] as int]));
                        let outcome = Err::<Seq<StoredSkillActivation>, Refusal>(error@);
                        assert(activations_listed(rows@, order@, outcome));
                    }
                    return Err(error);
                },
            }
            k += 1;
        }
        proof {
            let outcome = Ok::<Seq<StoredSkillActivation>, Refusal>(list@);
            assert(arranged(rows@, order@, list@));
            assert(activations_listed(rows@, order@, outcome));
        }
        Ok(list)
    }
}

/// Switching a name leaves every other name as it is.
pub proof fn switching_leaves_other_names(
    rows: Seq<SkillNameState>,
    change: SkillNameStateChange,
    other: SkillNameState,
)
    requires
        rows.contains(other),
        other.name@ != change.name@,
    ensures
        with_state(rows, change).contains(other),
{
    let after = with_state(rows, change);
    let k = rows.index_of(other);
    first_is_found(rows, is_state_of(change.name@));
    assert(after[k] == other);
}

} // verus!
