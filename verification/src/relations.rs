//! How rows before and after an operation relate, in terms of nothing but the rows.

use vstd::prelude::*;

use crate::append_effect::is_goal;
use crate::engine::{has_input_id, is_child, is_run, is_session};
use crate::rows::{ChildTaskRow, RunRow, SessionRow, StoredGoal, StoredInput};
use crate::table::{first, first_is_found, kept, kept_rows, some_row};
use crate::text::lists;

verus! {

/// A row is the first for which a condition holds.
pub open spec fn leads<R>(rows: Seq<R>, i: int, condition: spec_fn(R) -> bool) -> bool {
    &&& 0 <= i < rows.len()
    &&& condition(rows[i])
    &&& forall|j: int| 0 <= j < i ==> !condition(#[trigger] rows[j])
}

/// The condition holds of no row.
pub open spec fn none_of<R>(rows: Seq<R>, condition: spec_fn(R) -> bool) -> bool {
    forall|j: int| 0 <= j < rows.len() ==> !condition(#[trigger] rows[j])
}

/// The row of a session: the first that has its identifier.
pub open spec fn stands_at(sessions: Seq<SessionRow>, i: int, session_id: Seq<char>) -> bool {
    &&& 0 <= i < sessions.len()
    &&& sessions[i].session_id@ == session_id
    &&& forall|j: int| 0 <= j < i ==> (#[trigger] sessions[j]).session_id@ != session_id
}

/// There is one row for a session at most, and it is the one that is found.
pub proof fn session_stands_where_found(sessions: Seq<SessionRow>, session_id: Seq<char>)
    ensures
        first(sessions, is_session(session_id)) is Some ==> stands_at(
            sessions,
            first(sessions, is_session(session_id))->0,
            session_id,
        ),
        forall|i: int| #[trigger]
            stands_at(sessions, i, session_id) ==> first(sessions, is_session(session_id)) == Some(
                i,
            ),
        first(sessions, is_session(session_id)) is None ==> forall|i: int|
            0 <= i < sessions.len() ==> (#[trigger] sessions[i]).session_id@ != session_id,
        some_row(sessions, is_session(session_id)) == (first(
            sessions,
            is_session(session_id),
        ) is Some),
{
    first_is_found(sessions, is_session(session_id));
    match first(sessions, is_session(session_id)) {
        Some(k) => {
            assert(is_session(session_id)(sessions[k]));
            assert forall|j: int| 0 <= j < k implies (#[trigger] sessions[j]).session_id@
                != session_id by {
                assert(!is_session(session_id)(sessions[j]));
            }
            assert forall|i: int| #[trigger] stands_at(sessions, i, session_id) implies i == k by {
                if i < k {
                    assert(!is_session(session_id)(sessions[i]));
                } else if k < i {
                    assert(sessions[k].session_id@ != session_id);
                }
            }
        },
        None => {
            assert forall|i: int| 0 <= i < sessions.len() implies (
            #[trigger] sessions[i]).session_id@ != session_id by {
                assert(!is_session(session_id)(sessions[i]));
            }
        },
    }
}

/// The rows that are kept are those that a filter lets through.
pub proof fn kept_is_filtered<R>(
    rows: Seq<R>,
    condition: spec_fn(R) -> bool,
    plain: spec_fn(R) -> bool,
)
    requires
        forall|i: int|
            0 <= i < rows.len() ==> condition(#[trigger] rows[i]) == plain(rows[i]),
    ensures
        kept(rows, condition) == rows.filter(plain),
    decreases rows.len(),
{
    reveal_with_fuel(Seq::filter, 2);
    if rows.len() > 0 {
        let shorter = rows.drop_last();
        assert forall|i: int| 0 <= i < shorter.len() implies condition(#[trigger] shorter[i])
            == plain(shorter[i]) by {
            assert(shorter[i] == rows[i]);
        }
        kept_is_filtered(shorter, condition, plain);
        assert(rows.last() == rows[rows.len() - 1]);
    }
}

/// The row that is found leads; where none is found there is none.
pub proof fn found_leads<R>(
    rows: Seq<R>,
    condition: spec_fn(R) -> bool,
    plain: spec_fn(R) -> bool,
)
    requires
        forall|i: int|
            0 <= i < rows.len() ==> condition(#[trigger] rows[i]) == plain(rows[i]),
    ensures
        first(rows, condition) is Some ==> leads(rows, first(rows, condition)->0, plain),
        first(rows, condition) is None ==> none_of(rows, plain),
        some_row(rows, condition) == !none_of(rows, plain),
        first(rows, condition) is Some == !none_of(rows, plain),
        some_row(rows, condition) == (first(rows, condition) is Some),
{
    first_is_found(rows, condition);
    match first(rows, condition) {
        Some(i) => {
            assert(plain(rows[i]));
            assert(some_row(rows, condition));
        },
        None => {
            assert(none_of(rows, plain));
        },
    }
}

/// The row that leads is the one that is found.
pub proof fn leading_is_found<R>(
    rows: Seq<R>,
    condition: spec_fn(R) -> bool,
    plain: spec_fn(R) -> bool,
    i: int,
)
    requires
        forall|i: int|
            0 <= i < rows.len() ==> condition(#[trigger] rows[i]) == plain(rows[i]),
        leads(rows, i, plain),
    ensures
        first(rows, condition) == Some(i),
{
    found_leads(rows, condition, plain);
    assert(!none_of(rows, plain)) by {
        assert(plain(rows[i]));
    }
    let k = first(rows, condition)->0;
    if k < i {
        assert(!plain(rows[k]));
    }
    if i < k {
        assert(!plain(rows[i]));
    }
}

/// What a filter lets through was there, and nothing else gets through.
pub proof fn filtered_rows<R>(rows: Seq<R>, plain: spec_fn(R) -> bool)
    ensures
        rows.filter(plain).len() <= rows.len(),
        forall|row: R| #[trigger]
            rows.filter(plain).contains(row) == (rows.contains(row) && plain(row)),
        forall|i: int|
            0 <= i < rows.filter(plain).len() ==> plain(#[trigger] rows.filter(plain)[i])
                && rows.contains(rows.filter(plain)[i]),
{
    kept_is_filtered(rows, plain, plain);
    kept_rows(rows, plain);
    let found = rows.filter(plain);
    assert forall|row: R| #[trigger] found.contains(row) == (rows.contains(row) && plain(row)) by {
        if found.contains(row) {
            let i = found.index_of(row);
            assert(plain(found[i]));
        }
    }
}

/// The texts that the kept rows name.
pub proof fn kept_names<R>(
    rows: Seq<R>,
    condition: spec_fn(R) -> bool,
    name: spec_fn(R) -> String,
    text: Seq<char>,
)
    ensures
        lists(kept(rows, condition).map_values(name), text) == (exists|i: int|
            0 <= i < rows.len() && condition(#[trigger] rows[i]) && name(rows[i])@ == text),
{
    kept_rows(rows, condition);
    let some = kept(rows, condition);
    let names = some.map_values(name);
    if lists(names, text) {
        let k = choose|k: int| 0 <= k < names.len() && (#[trigger] names[k])@ == text;
        assert(names[k] == name(some[k]));
        assert(some.contains(some[k]));
        let i = rows.index_of(some[k]);
        assert(condition(rows[i]) && name(rows[i])@ == text);
    }
    if exists|i: int| 0 <= i < rows.len() && condition(#[trigger] rows[i]) && name(rows[i])@ == text {
        let i = choose|i: int|
            0 <= i < rows.len() && condition(#[trigger] rows[i]) && name(rows[i])@ == text;
        assert(rows.contains(rows[i]));
        assert(some.contains(rows[i]));
        let k = some.index_of(rows[i]);
        assert(names[k]@ == text);
    }
}

/// The row that is found is the one that leads, and there is none where none does.
pub proof fn leader_is_found<R>(
    rows: Seq<R>,
    condition: spec_fn(R) -> bool,
    plain: spec_fn(R) -> bool,
)
    requires
        forall|i: int|
            0 <= i < rows.len() ==> condition(#[trigger] rows[i]) == plain(rows[i]),
    ensures
        match first(rows, condition) {
            Some(i) => leads(rows, i, plain),
            None => none_of(rows, plain),
        },
        forall|i: int| #[trigger]
            leads(rows, i, plain) ==> first(rows, condition) == Some(i),
        some_row(rows, condition) == (first(rows, condition) is Some),
{
    found_leads(rows, condition, plain);
    assert forall|i: int| #[trigger] leads(rows, i, plain) implies first(rows, condition) == Some(
        i,
    ) by {
        leading_is_found(rows, condition, plain, i);
    }
}

/// The row of a run of a session: the first that has its identifier there.
pub open spec fn run_at(
    runs: Seq<RunRow>,
    i: int,
    session_id: Seq<char>,
    run_id: Seq<char>,
) -> bool {
    leads(runs, i, |run: RunRow| run.session_id@ == session_id && run.run_id@ == run_id)
}

/// The row of an input: the first that has its identifier.
pub open spec fn input_at(inputs: Seq<StoredInput>, i: int, input_id: Seq<char>) -> bool {
    leads(inputs, i, |input: StoredInput| input.input_id@ == input_id)
}

/// The row of a task of a session: the first that has its identifier there.
pub open spec fn task_at(
    tasks: Seq<ChildTaskRow>,
    i: int,
    session_id: Seq<char>,
    task_id: Seq<char>,
) -> bool {
    leads(
        tasks,
        i,
        |task: ChildTaskRow| task.session_id@ == session_id && task.child_task_id@ == task_id,
    )
}

/// The row of a goal of a session at a generation.
pub open spec fn goal_at(
    goals: Seq<StoredGoal>,
    i: int,
    session_id: Seq<char>,
    goal_id: Seq<char>,
    generation: u64,
) -> bool {
    leads(
        goals,
        i,
        |goal: StoredGoal|
            goal.session_id@ == session_id && goal.goal_id@ == goal_id && goal.generation
                == generation,
    )
}

/// A run is found where it stands.
pub proof fn run_is_found(runs: Seq<RunRow>, session_id: Seq<char>, run_id: Seq<char>)
    ensures
        forall|i: int| #[trigger]
            run_at(runs, i, session_id, run_id) ==> first(runs, is_run(session_id, run_id))
                == Some(i),
        first(runs, is_run(session_id, run_id)) is Some ==> run_at(
            runs,
            first(runs, is_run(session_id, run_id))->0,
            session_id,
            run_id,
        ),
{
    let plain = |run: RunRow| run.session_id@ == session_id && run.run_id@ == run_id;
    leader_is_found(runs, is_run(session_id, run_id), plain);
    assert forall|i: int| #[trigger] run_at(runs, i, session_id, run_id) implies first(
        runs,
        is_run(session_id, run_id),
    ) == Some(i) by {
        assert(leads(runs, i, plain));
    }
}

/// An input is found where it stands.
pub proof fn input_is_found(inputs: Seq<StoredInput>, input_id: Seq<char>)
    ensures
        forall|i: int| #[trigger]
            input_at(inputs, i, input_id) ==> first(inputs, has_input_id(input_id)) == Some(i),
        first(inputs, has_input_id(input_id)) is Some ==> input_at(
            inputs,
            first(inputs, has_input_id(input_id))->0,
            input_id,
        ),
        some_row(inputs, has_input_id(input_id)) == (first(
            inputs,
            has_input_id(input_id),
        ) is Some),
{
    let plain = |input: StoredInput| input.input_id@ == input_id;
    leader_is_found(inputs, has_input_id(input_id), plain);
    assert forall|i: int| #[trigger] input_at(inputs, i, input_id) implies first(
        inputs,
        has_input_id(input_id),
    ) == Some(i) by {
        assert(leads(inputs, i, plain));
    }
}

/// A task is found where it stands.
pub proof fn task_is_found(tasks: Seq<ChildTaskRow>, session_id: Seq<char>, task_id: Seq<char>)
    ensures
        forall|i: int| #[trigger]
            task_at(tasks, i, session_id, task_id) ==> first(tasks, is_child(session_id, task_id))
                == Some(i),
        first(tasks, is_child(session_id, task_id)) is Some ==> task_at(
            tasks,
            first(tasks, is_child(session_id, task_id))->0,
            session_id,
            task_id,
        ),
{
    let plain = |task: ChildTaskRow|
        task.session_id@ == session_id && task.child_task_id@ == task_id;
    leader_is_found(tasks, is_child(session_id, task_id), plain);
    assert forall|i: int| #[trigger] task_at(tasks, i, session_id, task_id) implies first(
        tasks,
        is_child(session_id, task_id),
    ) == Some(i) by {
        assert(leads(tasks, i, plain));
    }
}

/// A goal is found where it stands.
pub proof fn goal_is_found(
    goals: Seq<StoredGoal>,
    session_id: Seq<char>,
    goal_id: Seq<char>,
    generation: u64,
)
    ensures
        forall|i: int| #[trigger]
            goal_at(goals, i, session_id, goal_id, generation) ==> first(
                goals,
                is_goal(session_id, goal_id, generation),
            ) == Some(i),
        first(goals, is_goal(session_id, goal_id, generation)) is Some ==> goal_at(
            goals,
            first(goals, is_goal(session_id, goal_id, generation))->0,
            session_id,
            goal_id,
            generation,
        ),
        some_row(goals, is_goal(session_id, goal_id, generation)) == (first(
            goals,
            is_goal(session_id, goal_id, generation),
        ) is Some),
{
    let plain = |goal: StoredGoal|
        goal.session_id@ == session_id && goal.goal_id@ == goal_id && goal.generation == generation;
    leader_is_found(goals, is_goal(session_id, goal_id, generation), plain);
    assert forall|i: int| #[trigger] goal_at(goals, i, session_id, goal_id, generation) implies first(
        goals,
        is_goal(session_id, goal_id, generation),
    ) == Some(i) by {
        assert(leads(goals, i, plain));
    }
}

} // verus!
