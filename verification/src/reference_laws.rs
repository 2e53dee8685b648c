//! Where the files that messages name are found.

use vstd::prelude::*;

use std::sync::Arc;

use crate::conversation::RecordedMessage;
use crate::engine::{has_input_id, has_run_id, StorageEngine};
use crate::message::{calls_are_paired, distinct, held, ConversationMessage};
use crate::pairing_laws::{
    answers_call, calls_stand_with_their_results, is_answered_at, whole_exchanges_keep_it_together,
};
use crate::paths::{
    components, first_component_is_no_dot, is_rooted, joined_components, joined_path,
    leading_components, lies_in, one_part, part_text, parts, root_of, rooted_by_component, trailing,
    trailing_components,
};
use crate::pending_laws::makes_call;
use crate::relations::{input_at, input_is_found, leader_is_found, leads};
use crate::resource_reference::{current_path, is_owned, personal_host, relocated};
use crate::rows::{NewStoredInput, RunRow};
use crate::run_state::missing_refusal;
use crate::session_resources::SessionExecutionEnvironment;
use crate::table::first;
use crate::tool_exchange::{exchange_refusal, ids_of, messages_in};

verus! {

/// A path lies in a directory, step by step.
pub open spec fn lies_below(path: Seq<char>, directory: Seq<char>) -> bool {
    &&& components(directory).len() <= components(path).len()
    &&& forall|i: int|
        0 <= i < components(directory).len() ==> #[trigger] components(path)[i] == components(
            directory,
        )[i]
}

proof fn lying_in_is_step_by_step(path: Seq<char>, directory: Seq<char>)
    ensures
        lies_in(path, directory) == lies_below(path, directory),
{
    let base = components(directory);
    let all = components(path);
    if lies_in(path, directory) {
        assert forall|i: int| 0 <= i < base.len() implies #[trigger] all[i] == base[i] by {
            assert(all.take(base.len() as int)[i] == base[i]);
        }
    }
    if lies_below(path, directory) {
        assert(all.take(base.len() as int) =~= base);
    }
}

/// A session owns what lies in its private directory, in those of its attachments and tool images, and
/// in the private directory of its workspace, and nothing else.
pub proof fn sessions_own_what_lies_in_their_directories(
    environment: SessionExecutionEnvironment,
    path: Seq<char>,
)
    ensures
        is_owned(environment, path) <==> {
            ||| lies_below(path, environment.session_private_directory@)
            ||| lies_below(path, environment.session_attachment_directory@)
            ||| lies_below(path, environment.session_tool_image_directory@)
            ||| match environment.workspace_private_directory {
                Some(directory) => lies_below(path, directory@),
                None => false,
            }
        },
{
    lying_in_is_step_by_step(path, environment.session_private_directory@);
    lying_in_is_step_by_step(path, environment.session_attachment_directory@);
    lying_in_is_step_by_step(path, environment.session_tool_image_directory@);
    if environment.workspace_private_directory is Some {
        lying_in_is_step_by_step(path, environment.workspace_private_directory->0@);
    }
}

/// A home is that of a personal installation where its last two steps say so; the directory that holds
/// the homes of users is what stands before those.
pub proof fn personal_homes_end_in_two_steps(user_home: Seq<char>)
    ensures
        ({
            let steps = components(user_home);
            let n = steps.len() as int;
            let personal = parts(user_home).len() >= 2 && steps[n - 1] == "_personal"@ && steps[n
                - 2] == "users"@;
            &&& personal_host(user_home) is Some <==> personal
            &&& personal ==> components(personal_host(user_home)->0) == steps.take(n - 2)
        }),
{
    let steps = components(user_home);
    let found = parts(user_home).map_values(part_text(user_home));
    let n = found.len() as int;
    let r = root_of(user_home).len() as int;
    if n >= 2 {
        assert(steps[r + n - 1] == found[n - 1]);
        assert(steps[r + n - 2] == found[n - 2]);
        leading_components(user_home, n - 2);
    }
}

/// What was recorded in the data that moved into the home of the user is looked for there, under the
/// steps that it had. Other paths stay.
pub proof fn moved_data_keeps_its_steps(host: Seq<char>, user_home: Seq<char>, path: Seq<char>)
    ensures
        !lies_below(path, joined_path(host, "data"@)) ==> relocated(host, user_home, path) == path,
        lies_below(path, joined_path(host, "data"@)) ==> components(
            relocated(host, user_home, path),
        ) == components(user_home) + components(path).skip(components(host).len() as int),
{
    let source = joined_path(host, "data"@);
    lying_in_is_step_by_step(path, source);
    if lies_below(path, source) {
        reveal_strlit("data");
        assert("data"@.len() == 4 && "data"@[0] == 'd' && "data"@[1] == 'a' && "data"@[2] == 't'
            && "data"@[3] == 'a');
        one_part("data"@);
        joined_components(host, "data"@);
        let h = parts(host).len() as int;
        let steps = components(host).len() as int;
        assert(components(source)[steps] == "data"@);
        assert(components(path)[steps] == components(source)[steps]);
        assert(components(path)[0] == components(source)[0]);
        rooted_by_component(path);
        rooted_by_component(source);
        rooted_by_component(host);
        if steps > 0 {
            assert(components(source)[0] == components(host)[0]);
        } else {
            assert(components(source)[0] == "data"@);
            reveal_strlit("/");
            assert("/"@.len() == 1);
        }
        assert(is_rooted(path) == is_rooted(host));
        assert(root_of(path).len() == root_of(host).len());
        trailing_components(path, h);
        let rest = trailing(path, h);
        assert(components(rest) == components(path).skip(steps));
        assert(components(rest)[0] == "data"@);
        first_component_is_no_dot(rest);
        joined_components(user_home, rest);
    }
}

/// A recorded file is looked for where it moved to, where the session owns that, and else where it was
/// recorded.
pub proof fn recorded_files_are_looked_for_where_owned(
    user_home: Seq<char>,
    path: Seq<char>,
    environment: SessionExecutionEnvironment,
)
    ensures
        personal_host(user_home) is None ==> current_path(user_home, path, environment) == path,
        personal_host(user_home) is Some ==> {
            let moved = relocated(personal_host(user_home)->0, user_home, path);
            &&& is_owned(environment, moved) ==> current_path(user_home, path, environment) == moved
            &&& !is_owned(environment, moved) ==> current_path(user_home, path, environment) == path
        },
{
}

/// Results in the order of their calls, one for each, are accepted for an exchange.
pub proof fn results_in_order_are_accepted(
    assistant: Arc<RecordedMessage>,
    results: Seq<Arc<RecordedMessage>>,
)
    requires
        held(held(assistant).message) is Assistant,
        ids_of(held(held(assistant).message)).len() > 0,
        distinct(ids_of(held(held(assistant).message))),
        results.len() == ids_of(held(held(assistant).message)).len(),
        forall|k: int|
            0 <= k < results.len() ==> answers_call(
                held(held(#[trigger] results[k]).message),
                ids_of(held(held(assistant).message))[k],
            ),
    ensures
        exchange_refusal(assistant, results) is None,
{
    let nothing = Seq::<Arc<ConversationMessage>>::empty();
    let answers = messages_in(results);
    let message = held(assistant).message;
    assert forall|k: int| 0 <= k < answers.len() implies answers_call(
        held(#[trigger] answers[k]),
        ids_of(held(message))[k],
    ) by {
        assert(answers[k] == held(results[k]).message);
        assert(answers_call(held(held(results[k]).message), ids_of(held(message))[k]));
    }
    assert(calls_are_paired(nothing));
    whole_exchanges_keep_it_together(nothing, message, answers);
    assert(messages_in(seq![assistant] + results) =~= nothing.push(message) + answers);
    assert forall|i: int| 0 <= i < results.len() implies *(#[trigger] results[i]).message is Tool by {
        assert(answers_call(held(held(results[i]).message), ids_of(held(message))[i]));
    }
}

/// Results that are accepted for an exchange are results, each of a call, and each call has one.
pub proof fn accepted_results_answer_all_calls(
    assistant: Arc<RecordedMessage>,
    results: Seq<Arc<RecordedMessage>>,
    call_id: Seq<char>,
)
    requires
        exchange_refusal(assistant, results) is None,
    ensures
        forall|i: int| 0 <= i < results.len() ==> held(held(#[trigger] results[i]).message) is Tool,
        makes_call(held(held(assistant).message), call_id) <==> exists|i: int|
            0 <= i < results.len() && answers_call(
                held(held(#[trigger] results[i]).message),
                call_id,
            ),
{
    let all = messages_in(seq![assistant] + results);
    calls_stand_with_their_results(all);
    assert forall|i: int| 0 <= i < results.len() implies held(
        held(#[trigger] results[i]).message,
    ) is Tool by {
        assert(*results[i].message is Tool);
    }
    assert(all.len() == results.len() + 1);
    assert(all[0] == held(assistant).message);
    assert forall|i: int| 0 <= i < results.len() implies all[i + 1] == held(
        #[trigger] results[i],
    ).message by {}
    if makes_call(held(held(assistant).message), call_id) {
        assert(makes_call(held(all[0]), call_id));
        let i = choose|i: int| #[trigger] is_answered_at(all, 0, i, call_id);
        assert(all[i] == held(results[i - 1]).message);
        assert(answers_call(held(held(results[i - 1]).message), call_id));
    }
    if exists|i: int|
        0 <= i < results.len() && answers_call(held(held(#[trigger] results[i]).message), call_id) {
        let i = choose|i: int|
            0 <= i < results.len() && answers_call(
                held(held(#[trigger] results[i]).message),
                call_id,
            );
        assert(all[i + 1] == held(results[i]).message);
        assert(answers_call(held(all[i + 1]), call_id));
        let j = choose|j: int| #[trigger] is_answered_at(all, j, i + 1, call_id);
        if j > 0 {
            assert(all[j] == held(results[j - 1]).message);
            assert(held(all[j]) is Tool);
        }
    }
}

/// What the end of a run set in motion can be told exactly where each input is there, and its run, and
/// the input of that run.
pub proof fn what_follows_is_told_where_it_is_there(
    engine: StorageEngine,
    new: NewStoredInput,
    no_input: Seq<char>,
    no_run: Seq<char>,
)
    ensures
        missing_refusal(engine, new, no_input, no_run) is None <==> {
            &&& exists|k: int| #[trigger] input_at(engine.inputs@, k, new.input_id@)
            &&& exists|r: int|
                {
                    &&& #[trigger] is_run_at(engine.runs@, r, new.run_id@)
                    &&& exists|k: int| #[trigger]
                        input_at(engine.inputs@, k, engine.runs@[r].input_id@)
                }
        },
{
    input_is_found(engine.inputs@, new.input_id@);
    if first(engine.inputs@, has_input_id(new.input_id@)) is Some {
        assert(input_at(
            engine.inputs@,
            first(engine.inputs@, has_input_id(new.input_id@))->0,
            new.input_id@,
        ));
    }
    let plain = |run: RunRow| run.run_id@ == new.run_id@;
    leader_is_found(engine.runs@, has_run_id(new.run_id@), plain);
    assert forall|r: int| #[trigger] is_run_at(engine.runs@, r, new.run_id@) implies first(
        engine.runs@,
        has_run_id(new.run_id@),
    ) == Some(r) by {
        assert(leads(engine.runs@, r, plain));
    }
    match first(engine.runs@, has_run_id(new.run_id@)) {
        Some(r) => {
            assert(is_run_at(engine.runs@, r, new.run_id@));
            let id = engine.runs@[r].input_id@;
            input_is_found(engine.inputs@, id);
            if first(engine.inputs@, has_input_id(id)) is Some {
                assert(input_at(engine.inputs@, first(engine.inputs@, has_input_id(id))->0, id));
            }
        },
        None => {},
    }
}

/// The first run that has an identifier.
pub open spec fn is_run_at(runs: Seq<RunRow>, r: int, run_id: Seq<char>) -> bool {
    leads(runs, r, |run: RunRow| run.run_id@ == run_id)
}

} // verus!
