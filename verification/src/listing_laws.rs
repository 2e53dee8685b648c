//! What holds of lists of sessions as a whole.

use vstd::prelude::*;

use crate::engine::StorageEngine;
use crate::keys::{session_name, unique, unique_after_keeping};
use crate::order::{every_place_has_its_turn, is_order, key_before, SortKey};
use crate::session_summaries::{
    asked_for, list_size, sessions_listed, summary_keys, summary_of, window, SessionSummary,
    SessionSummaryQuery,
};
use crate::table::kept;
use crate::text::text_order_is_total;

verus! {

/// Keys with names of their own have one order.
pub proof fn order_is_unique(keys: Seq<SortKey>, left: Seq<usize>, right: Seq<usize>)
    requires
        is_order(keys, left),
        is_order(keys, right),
        forall|i: int, j: int|
            0 <= i < j < keys.len() ==> (#[trigger] keys[i]).id@ != (#[trigger] keys[j]).id@,
    ensures
        left == right,
{
    orders_agree(keys, left, right, left.len() as int);
    assert(left =~= right);
}

proof fn orders_agree(keys: Seq<SortKey>, left: Seq<usize>, right: Seq<usize>, n: int)
    requires
        is_order(keys, left),
        is_order(keys, right),
        forall|i: int, j: int|
            0 <= i < j < keys.len() ==> (#[trigger] keys[i]).id@ != (#[trigger] keys[j]).id@,
        0 <= n <= left.len(),
    ensures
        forall|k: int| 0 <= k < n ==> left[k] == right[k],
    decreases n,
{
    if n > 0 {
        orders_agree(keys, left, right, n - 1);
        let x = left[n - 1] as int;
        let y = right[n - 1] as int;
        if x != y {
            let turn = every_place_has_its_turn(keys, left, y);
            if turn < n - 1 {
                assert(right[turn] == right[n - 1]);
            }
            assert(turn > n - 1);
            let other = every_place_has_its_turn(keys, right, x);
            if other < n - 1 {
                assert(left[other] == left[n - 1]);
            }
            assert(other > n - 1);
            assert(!key_before(keys[left[turn] as int], keys[left[n - 1] as int]));
            assert(!key_before(keys[right[other] as int], keys[right[n - 1] as int]));
            if x < y {
                assert(keys[x].id@ != keys[y].id@);
            } else {
                assert(keys[y].id@ != keys[x].id@);
            }
            text_order_is_total(keys[x].id@, keys[y].id@);
        }
    }
}

/// All sessions that are asked for, as they are listed.
pub open spec fn whole_list(
    engine: StorageEngine,
    query: SessionSummaryQuery,
    order: Seq<usize>,
) -> Seq<SessionSummary> {
    let rows = kept(engine.sessions@, asked_for(query));
    order.map_values(|place: usize| summary_of(engine, rows[place as int]))
}

/// Pages one behind the other.
pub open spec fn joined_pages(pages: Seq<Seq<SessionSummary>>) -> Seq<SessionSummary>
    decreases pages.len(),
{
    if pages.len() == 0 {
        Seq::empty()
    } else {
        joined_pages(pages.drop_last()) + pages.last()
    }
}

/// A question that asks for the page behind `n` others.
pub open spec fn asks_for_page(query: SessionSummaryQuery, page: SessionSummaryQuery, n: int) -> bool {
    &&& page == (SessionSummaryQuery { offset: page.offset, ..query })
    &&& page.offset == n * list_size(query.limit)
}

/// The sessions up to the end of a page.
pub open spec fn first_pages(list: Seq<SessionSummary>, count: int) -> Seq<SessionSummary> {
    if count >= list.len() {
        list
    } else {
        list.take(count)
    }
}

proof fn sessions_have_one_order(
    engine: StorageEngine,
    query: SessionSummaryQuery,
    left: Seq<usize>,
    right: Seq<usize>,
)
    requires
        unique(engine.sessions@, session_name()),
        is_order(summary_keys(kept(engine.sessions@, asked_for(query))), left),
        is_order(summary_keys(kept(engine.sessions@, asked_for(query))), right),
    ensures
        left == right,
{
    let rows = kept(engine.sessions@, asked_for(query));
    unique_after_keeping(engine.sessions@, session_name(), asked_for(query));
    let keys = summary_keys(rows);
    assert forall|i: int, j: int| 0 <= i < j < keys.len() implies (#[trigger] keys[i]).id@ != (
    #[trigger] keys[j]).id@ by {
        assert(session_name()(rows[i]) != session_name()(rows[j]));
    }
    order_is_unique(keys, left, right);
}

/// Successive pages of a store that does not change are the whole list, as far as they reach.
pub proof fn pages_join_to_the_list(
    engine: StorageEngine,
    query: SessionSummaryQuery,
    questions: Seq<SessionSummaryQuery>,
    orders: Seq<Seq<usize>>,
    pages: Seq<Seq<SessionSummary>>,
    order: Seq<usize>,
)
    requires
        unique(engine.sessions@, session_name()),
        is_order(summary_keys(kept(engine.sessions@, asked_for(query))), order),
        questions.len() == pages.len(),
        orders.len() == pages.len(),
        forall|n: int|
            0 <= n < pages.len() ==> asks_for_page(query, #[trigger] questions[n], n)
                && sessions_listed(engine, questions[n], orders[n], Ok(pages[n])),
    ensures
        joined_pages(pages) == first_pages(
            whole_list(engine, query, order),
            pages.len() * list_size(query.limit),
        ),
    decreases pages.len(),
{
    let whole = whole_list(engine, query, order);
    let size = list_size(query.limit) as int;
    let rows = kept(engine.sessions@, asked_for(query));
    if pages.len() == 0 {
        assert(joined_pages(pages) =~= first_pages(whole, 0));
    } else {
        let n = pages.len() - 1;
        pages_join_to_the_list(
            engine,
            query,
            questions.drop_last(),
            orders.drop_last(),
            pages.drop_last(),
            order,
        );
        let page = pages.last();
        let question = questions[n];
        assert(asks_for_page(query, questions[n], n));
        assert(asked_for(question) =~= asked_for(query));
        sessions_have_one_order(engine, query, orders[n], order);
        let places = window(order, question.offset, question.limit);
        let start = n * size;
        assert((n + 1) * size == start + size) by (nonlinear_arith)
            requires
                start == n * size,
        ;
        assert(0 <= start) by (nonlinear_arith)
            requires
                n >= 0,
                size >= 0,
                start == n * size,
        ;
        assert(question.offset == start);
        assert forall|k: int| 0 <= k < page.len() implies #[trigger] page[k] == whole[start
            + k] by {
            assert(page[k] == summary_of(engine, rows[places[k] as int]));
            assert(places[k] == order[start + k]);
        }
        let earlier = first_pages(whole, start);
        assert(earlier + page =~= first_pages(whole, start + size));
    }
}

/// The whole list holds each session that is asked for, and none twice.
pub proof fn each_session_is_listed_once(
    engine: StorageEngine,
    query: SessionSummaryQuery,
    order: Seq<usize>,
    place: int,
)
    requires
        unique(engine.sessions@, session_name()),
        is_order(summary_keys(kept(engine.sessions@, asked_for(query))), order),
        0 <= place < kept(engine.sessions@, asked_for(query)).len(),
    ensures
        ({
            let whole = whole_list(engine, query, order);
            let rows = kept(engine.sessions@, asked_for(query));
            &&& whole.len() == rows.len()
            &&& whole.contains(summary_of(engine, rows[place]))
            &&& forall|i: int, j: int|
                0 <= i < j < whole.len() ==> (#[trigger] whole[i]).session_id@ != (
                #[trigger] whole[j]).session_id@
        }),
{
    let whole = whole_list(engine, query, order);
    let rows = kept(engine.sessions@, asked_for(query));
    unique_after_keeping(engine.sessions@, session_name(), asked_for(query));
    let turn = every_place_has_its_turn(summary_keys(rows), order, place);
    assert(whole[turn] == summary_of(engine, rows[place]));
    assert forall|i: int, j: int| 0 <= i < j < whole.len() implies (#[trigger] whole[i]).session_id@
        != (#[trigger] whole[j]).session_id@ by {
        let left = order[i] as int;
        let right = order[j] as int;
        assert(left != right);
        if left < right {
            assert(session_name()(rows[left]) != session_name()(rows[right]));
        } else {
            assert(session_name()(rows[right]) != session_name()(rows[left]));
        }
    }
}

} // verus!
