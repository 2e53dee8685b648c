//! What is kept of skills, and how.

use vstd::prelude::*;
use vstd::utf8::encode_utf8;

use crate::engine::StorageEngine;
use crate::error::Refusal;
use crate::order::key_before;
use crate::relations::{found_leads, kept_is_filtered, leader_is_found, leads, none_of};
use crate::rows::{SkillActivationOwner, SkillNameState, StoredSkillActivation};
use crate::skill::{
    activation_in, activation_in_scope, activation_keys, activation_refusal, activations_listed,
    has_activation_id, is_state_of, skill_set, valid_activation, with_activations, with_state,
    ActivationColumns, SkillNameStateChange,
};
use crate::table::{first, kept};
use crate::text::text_before;

verus! {

/// An activation that can be kept: it has an identifier of at most 128 bytes, belongs to the session
/// that it names or to a task, and names a revision and a definition.
pub open spec fn can_be_kept(activation: StoredSkillActivation) -> bool {
    &&& activation.activation_id@.len() > 0
    &&& encode_utf8(activation.activation_id@).len() <= 128
    &&& match activation.owner {
        SkillActivationOwner::Session(session_id) => session_id@ == activation.session_id@,
        SkillActivationOwner::ChildTask(child_task_id) => child_task_id@.len() > 0,
    }
    &&& activation.catalog_revision@.len() > 0
    &&& activation.definition_digest@.len() > 0
}

/// Activations are kept exactly where each can be and no two have an identifier in common, with the
/// kept ones or among themselves. They come behind those that are kept, in their order.
pub proof fn activations_are_kept_under_free_identifiers(
    ledger: Seq<StoredSkillActivation>,
    activations: Seq<StoredSkillActivation>,
)
    ensures
        with_activations(ledger, activations) is Ok <==> {
            &&& forall|k: int|
                0 <= k < activations.len() ==> can_be_kept(#[trigger] activations[k])
            &&& forall|k: int, i: int|
                0 <= k < activations.len() && 0 <= i < ledger.len() ==> (
                #[trigger] activations[k]).activation_id@ != (#[trigger] ledger[i]).activation_id@
            &&& forall|k: int, l: int|
                0 <= k < l < activations.len() ==> (#[trigger] activations[k]).activation_id@ != (
                #[trigger] activations[l]).activation_id@
        },
        with_activations(ledger, activations) is Ok ==> with_activations(ledger, activations)->Ok_0
            == ledger + activations,
    decreases activations.len(),
{
    if activations.len() == 0 {
        assert(ledger + activations =~= ledger);
    } else {
        let shorter = activations.drop_last();
        let last = activations.last();
        let n = activations.len() - 1;
        activations_are_kept_under_free_identifiers(ledger, shorter);
        assert(last == activations[n]);
        assert(valid_activation(last) == can_be_kept(last));
        let earlier = ledger + shorter;
        assert(earlier.push(last) =~= ledger + activations);
        let plain = |row: StoredSkillActivation| row.activation_id@ == last.activation_id@;
        found_leads(earlier, has_activation_id(last.activation_id@), plain);
        if with_activations(ledger, activations) is Ok {
            assert forall|k: int| 0 <= k < activations.len() implies can_be_kept(
                #[trigger] activations[k],
            ) by {
                if k < n {
                    assert(shorter[k] == activations[k]);
                }
            }
            assert forall|k: int, i: int|
                0 <= k < activations.len() && 0 <= i < ledger.len() implies (
            #[trigger] activations[k]).activation_id@ != (
            #[trigger] ledger[i]).activation_id@ by {
                if k < n {
                    assert(shorter[k] == activations[k]);
                } else {
                    assert(earlier[i] == ledger[i]);
                    assert(!plain(earlier[i]));
                }
            }
            assert forall|k: int, l: int| 0 <= k < l < activations.len() implies (
            #[trigger] activations[k]).activation_id@ != (
            #[trigger] activations[l]).activation_id@ by {
                assert(shorter[k] == activations[k]);
                if l < n {
                    assert(shorter[l] == activations[l]);
                } else {
                    assert(earlier[ledger.len() + k] == activations[k]);
                    assert(!plain(earlier[ledger.len() + k]));
                }
            }
        }
        if {
            &&& forall|k: int|
                0 <= k < activations.len() ==> can_be_kept(#[trigger] activations[k])
            &&& forall|k: int, i: int|
                0 <= k < activations.len() && 0 <= i < ledger.len() ==> (
                #[trigger] activations[k]).activation_id@ != (#[trigger] ledger[i]).activation_id@
            &&& forall|k: int, l: int|
                0 <= k < l < activations.len() ==> (#[trigger] activations[k]).activation_id@ != (
                #[trigger] activations[l]).activation_id@
        } {
            assert forall|k: int| 0 <= k < shorter.len() implies can_be_kept(
                #[trigger] shorter[k],
            ) by {
                assert(shorter[k] == activations[k]);
            }
            assert forall|k: int, i: int|
                0 <= k < shorter.len() && 0 <= i < ledger.len() implies (
            #[trigger] shorter[k]).activation_id@ != (#[trigger] ledger[i]).activation_id@ by {
                assert(shorter[k] == activations[k]);
            }
            assert forall|k: int, l: int| 0 <= k < l < shorter.len() implies (
            #[trigger] shorter[k]).activation_id@ != (#[trigger] shorter[l]).activation_id@ by {
                assert(shorter[k] == activations[k]);
                assert(shorter[l] == activations[l]);
            }
            assert forall|j: int| 0 <= j < earlier.len() implies !plain(#[trigger] earlier[j]) by {
                if j < ledger.len() {
                    assert(earlier[j] == ledger[j]);
                    assert(activations[n].activation_id@ != ledger[j].activation_id@);
                } else {
                    assert(earlier[j] == activations[j - ledger.len()]);
                }
            }
            assert(none_of(earlier, plain));
        }
    }
}

/// The row that says whether a skill is on.
pub open spec fn state_at(rows: Seq<SkillNameState>, i: int, name: Seq<char>) -> bool {
    leads(rows, i, |row: SkillNameState| row.name@ == name)
}

/// A skill is turned on or off by its name: the row of that name says what was said last, and since
/// when. Others stay.
pub proof fn skills_are_as_last_set(rows: Seq<SkillNameState>, change: SkillNameStateChange)
    ensures
        forall|i: int| #[trigger]
            state_at(rows, i, change.name@) ==> {
                let after = with_state(rows, change);
                &&& after.len() == rows.len()
                &&& after[i].name == rows[i].name
                &&& after[i].enabled == change.enabled
                &&& after[i].updated_at_ms == change.updated_at_ms
                &&& forall|j: int|
                    0 <= j < rows.len() && j != i ==> #[trigger] after[j] == rows[j]
            },
        none_of(rows, |row: SkillNameState| row.name@ == change.name@) ==> {
            let after = with_state(rows, change);
            &&& after.len() == rows.len() + 1
            &&& after.drop_last() == rows
            &&& after.last().name == change.name
            &&& after.last().enabled == change.enabled
            &&& after.last().updated_at_ms == change.updated_at_ms
        },
{
    let plain = |row: SkillNameState| row.name@ == change.name@;
    leader_is_found(rows, is_state_of(change.name@), plain);
    assert forall|i: int| #[trigger] state_at(rows, i, change.name@) implies first(
        rows,
        is_state_of(change.name@),
    ) == Some(i) by {
        assert(leads(rows, i, plain));
    }
    if none_of(rows, plain) {
        if first(rows, is_state_of(change.name@)) is Some {
            assert(plain(rows[first(rows, is_state_of(change.name@))->0]));
        }
        assert(with_state(rows, change).drop_last() =~= rows);
    }
}

/// An activation is read from its columns exactly where they name an owner, a trigger and a name,
/// and it can be kept. It says what they say.
pub proof fn columns_say_what_the_activation_is(columns: ActivationColumns)
    ensures
        activation_refusal(columns) is None <==> {
            &&& (columns.owner_kind@ == "session"@ && columns.owner_id@ == columns.session_id@) || (
            columns.owner_kind@ == "child_task"@ && columns.owner_id@.len() > 0)
            &&& columns.name_is_valid
            &&& columns.trigger@ == "user"@ || columns.trigger@ == "model"@
            &&& columns.activation_id@.len() > 0
            &&& encode_utf8(columns.activation_id@).len() <= 128
            &&& columns.catalog_revision@.len() > 0
            &&& columns.definition_digest@.len() > 0
        },
        activation_refusal(columns) is None ==> {
            let activation = activation_in(columns);
            &&& activation.activation_id == columns.activation_id
            &&& activation.session_id == columns.session_id
            &&& activation.run_id == columns.run_id
            &&& activation.input_id == columns.input_id
            &&& activation.message_id == columns.message_id
            &&& activation.name == columns.name
            &&& activation.catalog_revision == columns.catalog_revision
            &&& activation.definition_digest == columns.definition_digest
            &&& activation.created_at_ms == columns.created_at_ms
            &&& (activation.trigger is User) == (columns.trigger@ == "user"@)
            &&& match activation.owner {
                SkillActivationOwner::Session(id) => columns.owner_kind@ == "session"@ && id@
                    == columns.owner_id@,
                SkillActivationOwner::ChildTask(id) => columns.owner_kind@ == "child_task"@ && id@
                    == columns.owner_id@,
            }
        },
{
    reveal_strlit("session");
    reveal_strlit("child_task");
    reveal_strlit("user");
    reveal_strlit("model");
    assert("session"@.len() != "child_task"@.len());
    assert("user"@.len() != "model"@.len());
}

/// Activations are listed in the order of their times and, at one time, of their identifiers.
pub proof fn activations_are_listed_in_order(
    rows: Seq<StoredSkillActivation>,
    order: Seq<usize>,
    list: Seq<StoredSkillActivation>,
)
    requires
        activations_listed(rows, order, Ok(list)),
    ensures
        list.len() == rows.len(),
        forall|k: int| 0 <= k < list.len() ==> rows.contains(#[trigger] list[k]),
        forall|k: int, l: int|
            0 <= k < l < list.len() ==> {
                ||| (#[trigger] list[k]).created_at_ms < (#[trigger] list[l]).created_at_ms
                ||| (list[k].created_at_ms == list[l].created_at_ms && !text_before(
                    list[l].activation_id@,
                    list[k].activation_id@,
                ))
            },
{
    let keys = activation_keys(rows);
    assert forall|k: int| 0 <= k < list.len() implies rows.contains(#[trigger] list[k]) by {
        assert(list[k] == rows[order[k] as int]);
    }
    assert forall|k: int, l: int| 0 <= k < l < list.len() implies {
        ||| (#[trigger] list[k]).created_at_ms < (#[trigger] list[l]).created_at_ms
        ||| (list[k].created_at_ms == list[l].created_at_ms && !text_before(
            list[l].activation_id@,
            list[k].activation_id@,
        ))
    } by {
        assert(!key_before(keys[order[l] as int], keys[order[k] as int]));
    }
}

/// The activations in scope are those of the session asked for, or all.
pub proof fn activations_in_scope_are_the_sessions(
    rows: Seq<StoredSkillActivation>,
    scope: Option<String>,
)
    ensures
        kept(rows, activation_in_scope(scope)) == match scope {
            Some(session_id) => rows.filter(
                |row: StoredSkillActivation| row.session_id@ == session_id@,
            ),
            None => rows,
        },
{
    match scope {
        Some(session_id) => {
            kept_is_filtered(
                rows,
                activation_in_scope(scope),
                |row: StoredSkillActivation| row.session_id@ == session_id@,
            );
        },
        None => {
            all_are_kept(rows, activation_in_scope(scope));
        },
    }
}

proof fn all_are_kept<R>(rows: Seq<R>, condition: spec_fn(R) -> bool)
    requires
        forall|row: R| #[trigger] condition(row),
    ensures
        kept(rows, condition) == rows,
    decreases rows.len(),
{
    if rows.len() > 0 {
        all_are_kept(rows.drop_last(), condition);
        assert(rows.drop_last().push(rows.last()) =~= rows);
    }
}

/// A skill is turned on or off exactly where the time can be stored, and the caller is told what was
/// said. Nothing but the state of skills changes.
pub proof fn skills_are_set_as_told(
    before: StorageEngine,
    after: StorageEngine,
    change: SkillNameStateChange,
    outcome: Result<SkillNameState, Refusal>,
)
    requires
        skill_set(before, after, change, outcome),
    ensures
        outcome is Ok <==> change.updated_at_ms <= i64::MAX,
        outcome is Err ==> after == before,
        after == (StorageEngine { skill_name_states: after.skill_name_states, ..before }),
        outcome is Ok ==> outcome->Ok_0.name == change.name && outcome->Ok_0.enabled
            == change.enabled && outcome->Ok_0.updated_at_ms == change.updated_at_ms,
        outcome is Ok ==> forall|i: int| #[trigger]
            state_at(before.skill_name_states@, i, change.name@)
                ==> after.skill_name_states@[i].enabled == change.enabled,
{
    skills_are_as_last_set(before.skill_name_states@, change);
}

} // verus!
