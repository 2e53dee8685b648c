//! Each call in a conversation stands with its result.

use vstd::prelude::*;

use std::sync::Arc;

use crate::conversation::candidate_refusal;
use crate::engine::path_component;
use crate::message::{
    call_ids, calls_are_paired, distinct, distinct_messages, held, key_of, open_calls,
    ConversationMessage,
};
use crate::pending_laws::{ids_are_those_of_the_calls, makes_call};
use crate::rewriting_laws::id_of_message;
use crate::tool_exchange::ids_of;

verus! {

/// The identifier of the call that a message is the result of.
pub open spec fn answers_call(message: ConversationMessage, call_id: Seq<char>) -> bool {
    match message {
        ConversationMessage::Tool(tool) => tool.result.call_id@ == call_id,
        _ => false,
    }
}

/// A call is answered at a place: behind the message that makes it there are results only, up to its
/// own.
pub open spec fn is_answered_at(
    messages: Seq<Arc<ConversationMessage>>,
    j: int,
    i: int,
    call_id: Seq<char>,
) -> bool {
    &&& 0 <= j < i < messages.len()
    &&& makes_call(held(messages[j]), call_id)
    &&& answers_call(held(messages[i]), call_id)
    &&& forall|k: int| j < k < i ==> held(#[trigger] messages[k]) is Tool && !answers_call(
        held(messages[k]),
        call_id,
    )
}

spec fn stands_open(
    messages: Seq<Arc<ConversationMessage>>,
    j: int,
    call_id: Seq<char>,
) -> bool {
    &&& 0 <= j < messages.len()
    &&& makes_call(held(messages[j]), call_id)
    &&& forall|k: int| j < k < messages.len() ==> held(#[trigger] messages[k]) is Tool
        && !answers_call(held(messages[k]), call_id)
}

spec fn open_calls_stand(
    messages: Seq<Arc<ConversationMessage>>,
    open: Seq<Seq<char>>,
) -> bool {
    &&& distinct(open)
    &&& forall|c: Seq<char>| #[trigger]
        open.contains(c) ==> exists|j: int| #[trigger] stands_open(messages, j, c)
    &&& forall|j: int, c: Seq<char>|
        0 <= j < messages.len() && #[trigger] makes_call(held(messages[j]), c) ==> (open.contains(c)
            && stands_open(messages, j, c)) || exists|i: int| #[trigger]
            is_answered_at(messages, j, i, c)
    &&& forall|i: int, c: Seq<char>|
        0 <= i < messages.len() && #[trigger] answers_call(held(messages[i]), c) ==> exists|j: int|
            #[trigger] is_answered_at(messages, j, i, c)
}

proof fn answered_stays_answered(
    messages: Seq<Arc<ConversationMessage>>,
    more: Seq<Arc<ConversationMessage>>,
    j: int,
    i: int,
    c: Seq<char>,
)
    requires
        is_answered_at(messages, j, i, c),
        more.len() == messages.len() + 1,
        more.drop_last() == messages,
    ensures
        is_answered_at(more, j, i, c),
{
    assert forall|k: int| j < k < i implies held(#[trigger] more[k]) is Tool && !answers_call(
        held(more[k]),
        c,
    ) by {
        assert(messages[k] == more.drop_last()[k]);
    }
    assert(messages[j] == more.drop_last()[j]);
    assert(messages[i] == more.drop_last()[i]);
}

proof fn open_calls_are_those_that_wait(messages: Seq<Arc<ConversationMessage>>)
    requires
        open_calls(messages) is Some,
    ensures
        open_calls_stand(messages, open_calls(messages)->0),
    decreases messages.len(),
{
    if messages.len() > 0 {
        let shorter = messages.drop_last();
        let n = messages.len() - 1;
        open_calls_are_those_that_wait(shorter);
        let before = open_calls(shorter)->0;
        let open = open_calls(messages)->0;
        let last = held(messages.last());
        assert(messages[n] == messages.last());
        assert forall|k: int| 0 <= k < n implies #[trigger] messages[k] == shorter[k] by {}
        match last {
            ConversationMessage::Tool(tool) => {
                let id = tool.result.call_id@;
                before.index_of_first_ensures(id);
                let place = before.index_of_first(id)->0;
                assert(before.contains(id));
                assert forall|c: Seq<char>| open.contains(c) == (before.contains(c) && c != id) by {
                    if open.contains(c) {
                        let k = open.index_of(c);
                        if k < place {
                            assert(before[k] == c);
                        } else {
                            assert(before[k + 1] == c);
                        }
                        assert(before.contains(c));
                    }
                    if before.contains(c) && c != id {
                        let k = before.index_of(c);
                        if k < place {
                            assert(open[k] == c);
                        } else {
                            assert(open[k - 1] == c);
                        }
                    }
                }
                assert(distinct(open)) by {
                    assert forall|a: int, b: int| 0 <= a < b < open.len() implies #[trigger] open[a]
                        != #[trigger] open[b] by {
                        let x = if a < place {
                            a
                        } else {
                            a + 1
                        };
                        let y = if b < place {
                            b
                        } else {
                            b + 1
                        };
                        assert(open[a] == before[x]);
                        assert(open[b] == before[y]);
                    }
                }
                assert forall|c: Seq<char>| #[trigger] open.contains(c) implies exists|j: int|
                    #[trigger] stands_open(messages, j, c) by {
                    let j = choose|j: int| #[trigger] stands_open(shorter, j, c);
                    assert(stands_open(messages, j, c)) by {
                        assert forall|k: int| j < k < messages.len() implies held(
                            #[trigger] messages[k],
                        ) is Tool && !answers_call(held(messages[k]), c) by {
                            if k < n {
                                assert(messages[k] == shorter[k]);
                            }
                        }
                    }
                }
                assert forall|j: int, c: Seq<char>|
                    0 <= j < messages.len() && #[trigger] makes_call(held(messages[j]), c) implies (
                open.contains(c) && stands_open(messages, j, c)) || exists|i: int| #[trigger]
                    is_answered_at(messages, j, i, c) by {
                    assert(j < n);
                    assert(makes_call(held(shorter[j]), c));
                    if before.contains(c) && stands_open(shorter, j, c) {
                        if c == id {
                            assert(is_answered_at(messages, j, n, c)) by {
                                assert forall|k: int| j < k < n implies held(
                                    #[trigger] messages[k],
                                ) is Tool && !answers_call(held(messages[k]), c) by {
                                    assert(messages[k] == shorter[k]);
                                }
                            }
                        } else {
                            assert forall|k: int| j < k < messages.len() implies held(
                                #[trigger] messages[k],
                            ) is Tool && !answers_call(held(messages[k]), c) by {
                                if k < n {
                                    assert(messages[k] == shorter[k]);
                                }
                            }
                            assert(stands_open(messages, j, c));
                        }
                    } else {
                        let i = choose|i: int| #[trigger] is_answered_at(shorter, j, i, c);
                        answered_stays_answered(shorter, messages, j, i, c);
                    }
                }
                assert forall|i: int, c: Seq<char>|
                    0 <= i < messages.len() && #[trigger] answers_call(
                        held(messages[i]),
                        c,
                    ) implies exists|j: int| #[trigger] is_answered_at(messages, j, i, c) by {
                    if i < n {
                        assert(answers_call(held(shorter[i]), c));
                        let j = choose|j: int| #[trigger] is_answered_at(shorter, j, i, c);
                        answered_stays_answered(shorter, messages, j, i, c);
                    } else {
                        assert(c == id);
                        let j = choose|j: int| #[trigger] stands_open(shorter, j, c);
                        assert(is_answered_at(messages, j, n, c)) by {
                            assert forall|k: int| j < k < n implies held(
                                #[trigger] messages[k],
                            ) is Tool && !answers_call(held(messages[k]), c) by {
                                assert(messages[k] == shorter[k]);
                            }
                        }
                    }
                }
            },
            _ => {
                assert(before.len() == 0);
                assert forall|c: Seq<char>| open.contains(c) == makes_call(last, c) by {
                    match last {
                        ConversationMessage::Assistant(answer) => {
                            ids_are_those_of_the_calls(last, c);
                        },
                        _ => {},
                    }
                }
                assert forall|c: Seq<char>| #[trigger] open.contains(c) implies exists|j: int|
                    #[trigger] stands_open(messages, j, c) by {
                    assert(stands_open(messages, n, c));
                }
                assert forall|j: int, c: Seq<char>|
                    0 <= j < messages.len() && #[trigger] makes_call(held(messages[j]), c) implies (
                open.contains(c) && stands_open(messages, j, c)) || exists|i: int| #[trigger]
                    is_answered_at(messages, j, i, c) by {
                    if j < n {
                        assert(makes_call(held(shorter[j]), c));
                        assert(!before.contains(c));
                        let i = choose|i: int| #[trigger] is_answered_at(shorter, j, i, c);
                        answered_stays_answered(shorter, messages, j, i, c);
                    } else {
                        assert(stands_open(messages, n, c));
                    }
                }
                assert forall|i: int, c: Seq<char>|
                    0 <= i < messages.len() && #[trigger] answers_call(
                        held(messages[i]),
                        c,
                    ) implies exists|j: int| #[trigger] is_answered_at(messages, j, i, c) by {
                    assert(i < n);
                    assert(answers_call(held(shorter[i]), c));
                    let j = choose|j: int| #[trigger] is_answered_at(shorter, j, i, c);
                    answered_stays_answered(shorter, messages, j, i, c);
                }
            },
        }
    }
}

/// In a conversation that holds together each call has its result, with nothing between but results
/// of other calls; and each result belongs to a call so.
pub proof fn calls_stand_with_their_results(messages: Seq<Arc<ConversationMessage>>)
    requires
        calls_are_paired(messages),
    ensures
        forall|j: int, c: Seq<char>|
            0 <= j < messages.len() && #[trigger] makes_call(held(messages[j]), c) ==> exists|
                i: int,
            | #[trigger] is_answered_at(messages, j, i, c),
        forall|i: int, c: Seq<char>|
            0 <= i < messages.len() && #[trigger] answers_call(held(messages[i]), c) ==> exists|
                j: int,
            | #[trigger] is_answered_at(messages, j, i, c),
{
    open_calls_are_those_that_wait(messages);
    let open = open_calls(messages)->0;
    assert forall|j: int, c: Seq<char>|
        0 <= j < messages.len() && #[trigger] makes_call(held(messages[j]), c) implies exists|
        i: int,
    | #[trigger] is_answered_at(messages, j, i, c) by {
        assert(!open.contains(c));
    }
}

/// A conversation that holds together still does with a message behind it that makes no call and is
/// no result, and with none it does. With a result behind it, it does not.
pub proof fn plain_messages_keep_it_together(
    messages: Seq<Arc<ConversationMessage>>,
    message: Arc<ConversationMessage>,
)
    requires
        calls_are_paired(messages),
    ensures
        calls_are_paired(Seq::empty()),
        held(message) is User ==> calls_are_paired(messages.push(message)),
        held(message) is ContextSummary ==> calls_are_paired(messages.push(message)),
        held(message) is Tool ==> !calls_are_paired(messages.push(message)),
        held(message) is Assistant ==> (calls_are_paired(messages.push(message)) <==> forall|
            c: Seq<char>,
        | !#[trigger] makes_call(held(message), c)),
{
    let more = messages.push(message);
    assert(more.drop_last() =~= messages);
    assert(more.last() == message);
    let last = held(message);
    if last is Assistant {
        let ids = ids_of(last);
        assert(ids =~= call_ids(last->Assistant_0));
        if calls_are_paired(more) {
            assert forall|c: Seq<char>| !#[trigger] makes_call(last, c) by {
                ids_are_those_of_the_calls(last, c);
            }
        }
        if forall|c: Seq<char>| !#[trigger] makes_call(last, c) {
            if ids.len() > 0 {
                ids_are_those_of_the_calls(last, ids[0]);
                assert(ids.contains(ids[0]));
            }
            assert(ids =~= Seq::empty());
        }
    }
}

/// A conversation holds together with an answer behind it and one result for each of its calls, in
/// the order of the calls, where no two calls have one identifier.
pub proof fn whole_exchanges_keep_it_together(
    messages: Seq<Arc<ConversationMessage>>,
    assistant: Arc<ConversationMessage>,
    results: Seq<Arc<ConversationMessage>>,
)
    requires
        calls_are_paired(messages),
        held(assistant) is Assistant,
        distinct(ids_of(held(assistant))),
        results.len() == ids_of(held(assistant)).len(),
        forall|k: int|
            0 <= k < results.len() ==> answers_call(
                held(#[trigger] results[k]),
                ids_of(held(assistant))[k],
            ),
    ensures
        calls_are_paired(messages.push(assistant) + results),
{
    let ids = ids_of(held(assistant));
    let begun = messages.push(assistant);
    assert(begun.drop_last() =~= messages);
    assert(ids =~= call_ids(held(assistant)->Assistant_0));
    assert(open_calls(begun) == Some(ids));
    results_close_calls(begun, ids, results, results.len() as int);
    assert(results.take(results.len() as int) =~= results);
    assert(ids.skip(results.len() as int) =~= Seq::empty());
}

proof fn results_close_calls(
    begun: Seq<Arc<ConversationMessage>>,
    ids: Seq<Seq<char>>,
    results: Seq<Arc<ConversationMessage>>,
    n: int,
)
    requires
        open_calls(begun) == Some(ids),
        0 <= n <= results.len(),
        results.len() == ids.len(),
        forall|k: int|
            0 <= k < results.len() ==> answers_call(held(#[trigger] results[k]), ids[k]),
    ensures
        open_calls(begun + results.take(n)) == Some(ids.skip(n)),
    decreases n,
{
    if n == 0 {
        assert(begun + results.take(0) =~= begun);
        assert(ids.skip(0) =~= ids);
    } else {
        results_close_calls(begun, ids, results, n - 1);
        let more = begun + results.take(n);
        assert(more.drop_last() =~= begun + results.take(n - 1));
        assert(more.last() == results[n - 1]);
        let open = ids.skip(n - 1);
        let id = ids[n - 1];
        assert(answers_call(held(results[n - 1]), id));
        assert(open[0] == id);
        assert(open.contains(id));
        open.index_of_first_ensures(id);
        assert(open.index_of_first(id) == Some(0int));
        assert(open.remove(0) =~= ids.skip(n));
    }
}

/// Messages can follow a conversation exactly where no two of all of them have one identifier and
/// each call stands with its result.
pub proof fn messages_can_follow_where_all_fits(
    current: Seq<Arc<ConversationMessage>>,
    batch: Seq<Arc<ConversationMessage>>,
)
    ensures
        candidate_refusal(current, batch) is None <==> {
            &&& forall|i: int, j: int|
                0 <= i < j < (current + batch).len() ==> id_of_message(
                    held(#[trigger] (current + batch)[i]),
                ) != id_of_message(held(#[trigger] (current + batch)[j]))
            &&& calls_are_paired(current + batch)
        },
{
    let all = current + batch;
    if distinct_messages(all) {
        assert forall|i: int, j: int| 0 <= i < j < all.len() implies id_of_message(
            held(#[trigger] all[i]),
        ) != id_of_message(held(#[trigger] all[j])) by {
            assert(key_of(*all[i])@ != key_of(*all[j])@);
        }
    }
    if forall|i: int, j: int|
        0 <= i < j < all.len() ==> id_of_message(held(#[trigger] all[i])) != id_of_message(
            held(#[trigger] all[j]),
        ) {
        assert forall|i: int, j: int| 0 <= i < j < all.len() implies key_of(
            *#[trigger] all[i],
        )@ != key_of(*#[trigger] all[j])@ by {
            assert(id_of_message(held(all[i])) != id_of_message(held(all[j])));
        }
    }
}

/// A name that a directory can have: not empty, not one of the two names of directories that are
/// there already, and without separators.
pub proof fn directory_names_hold_no_separator(name: Seq<char>)
    ensures
        path_component(name) <==> {
            &&& name.len() > 0
            &&& !(name.len() == 1 && name[0] == '.')
            &&& !(name.len() == 2 && name[0] == '.' && name[1] == '.')
            &&& forall|i: int|
                0 <= i < name.len() ==> #[trigger] name[i] != '/' && name[i] != '\\' && name[i]
                    != '\0'
        },
{
    reveal_strlit(".");
    reveal_strlit("..");
    if name.len() == 1 && name[0] == '.' {
        assert(name =~= "."@);
    }
    if name.len() == 2 && name[0] == '.' && name[1] == '.' {
        assert(name =~= ".."@);
    }
    if name.contains('/') || name.contains('\\') || name.contains('\0') {
        let i = if name.contains('/') {
            name.index_of('/')
        } else if name.contains('\\') {
            name.index_of('\\')
        } else {
            name.index_of('\0')
        };
        assert(name[i] == '/' || name[i] == '\\' || name[i] == '\0');
    }
}

} // verus!
