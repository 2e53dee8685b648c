//! Rows in the order of their rank, of their time where ranks are equal, and of their identifier
//! where times are equal too.

use vstd::prelude::*;

use crate::text::{precedes, text_before, text_order_is_total, text_order_is_transitive};

verus! {

/// What rows are ordered by.
#[derive(Debug, PartialEq, Eq)]
pub struct SortKey {
    pub rank: u64,
    pub time: i64,
    pub id: String,
}

/// The strict order of keys: by rank, then by time, then by identifier.
pub open spec fn key_before(left: SortKey, right: SortKey) -> bool {
    left.rank < right.rank || (left.rank == right.rank && (left.time < right.time || (left.time
        == right.time && text_before(left.id@, right.id@))))
}

/// `order` names each key once, earlier ones first.
pub open spec fn is_order(keys: Seq<SortKey>, order: Seq<usize>) -> bool {
    &&& order.len() == keys.len()
    &&& places_of(keys.len(), order)
    &&& in_order(keys, order)
}

/// Places below `n`, none twice.
pub open spec fn places_of(n: nat, order: Seq<usize>) -> bool {
    &&& forall|i: int| 0 <= i < order.len() ==> #[trigger] order[i] < n
    &&& forall|i: int, j: int|
        0 <= i < j < order.len() ==> #[trigger] order[i] != #[trigger] order[j]
}

/// No key stands behind a later one.
pub open spec fn in_order(keys: Seq<SortKey>, order: Seq<usize>) -> bool {
    forall|i: int, j: int|
        0 <= i < j < order.len() ==> !key_before(
            keys[#[trigger] order[j] as int],
            keys[#[trigger] order[i] as int],
        )
}

/// Whether one key comes before another.
pub fn comes_before(left: &SortKey, right: &SortKey) -> (result: bool)
    ensures
        result == key_before(*left, *right),
{
    left.rank < right.rank || (left.rank == right.rank && (left.time < right.time || (left.time
        == right.time && precedes(left.id.as_str(), right.id.as_str()))))
}

proof fn not_before_is_transitive(first: SortKey, second: SortKey, third: SortKey)
    requires
        !key_before(second, first),
        !key_before(third, second),
    ensures
        !key_before(third, first),
{
    text_order_is_total(first.id@, second.id@);
    text_order_is_total(second.id@, third.id@);
    text_order_is_total(first.id@, third.id@);
    if first.rank == second.rank && second.rank == third.rank && first.time == second.time
        && second.time == third.time {
        if text_before(first.id@, second.id@) && text_before(second.id@, third.id@) {
            text_order_is_transitive(first.id@, second.id@, third.id@);
        }
    }
}

/// The places of the keys, earlier ones first.
pub fn ordered(keys: &Vec<SortKey>) -> (order: Vec<usize>)
    ensures
        is_order(keys@, order@),
{
    let mut order: Vec<usize> = Vec::new();
    let mut k: usize = 0;
    while k < keys.len()
        invariant
            k <= keys@.len(),
            order@.len() == k,
            places_of(k as nat, order@),
            in_order(keys@, order@),
        decreases keys@.len() - k,
    {
        let mut place: usize = 0;
        while place < order.len() && !comes_before(&keys[k], &keys[order[place]])
            invariant
                k < keys@.len(),
                place <= order@.len(),
                order@.len() == k,
                places_of(k as nat, order@),
                forall|i: int|
                    0 <= i < place ==> !key_before(
                        keys@[k as int],
                        keys@[#[trigger] order@[i] as int],
                    ),
            decreases order@.len() - place,
        {
            place += 1;
        }
        let ghost before = order@;
        order.insert(place, k);
        proof {
            let new = keys@[k as int];
            assert(order@ == before.insert(place as int, k));
            if place < before.len() {
                text_order_is_total(new.id@, keys@[before[place as int] as int].id@);
            }
            assert forall|i: int, j: int| 0 <= i < j < order@.len() implies !key_before(
                keys@[#[trigger] order@[j] as int],
                keys@[#[trigger] order@[i] as int],
            ) by {
                let a = if i < place {
                    i
                } else {
                    i - 1
                };
                let b = if j < place {
                    j
                } else {
                    j - 1
                };
                if i != place && j != place {
                    assert(order@[i] == before[a]);
                    assert(order@[j] == before[b]);
                } else if i == place {
                    assert(order@[j] == before[j - 1]);
                    let next = keys@[before[place as int] as int];
                    assert(!key_before(next, new));
                    if j - 1 > place {
                        assert(!key_before(keys@[before[j - 1] as int], next));
                        not_before_is_transitive(new, next, keys@[before[j - 1] as int]);
                    }
                } else {
                    assert(order@[i] == before[i]);
                }
            }
            assert forall|i: int| 0 <= i < order@.len() implies #[trigger] order@[i] < k + 1 by {
                if i < place {
                    assert(order@[i] == before[i]);
                } else if i > place {
                    assert(order@[i] == before[i - 1]);
                }
            }
            assert forall|i: int, j: int| 0 <= i < j < order@.len() implies #[trigger] order@[i]
                != #[trigger] order@[j] by {
                if i < place {
                    assert(order@[i] == before[i]);
                } else if i > place {
                    assert(order@[i] == before[i - 1]);
                }
                if j < place {
                    assert(order@[j] == before[j]);
                } else if j > place {
                    assert(order@[j] == before[j - 1]);
                }
            }
        }
        k += 1;
    }
    order
}

/// Every place has its turn.
pub proof fn every_place_has_its_turn(keys: Seq<SortKey>, order: Seq<usize>, place: int) -> (turn: int)
    requires
        is_order(keys, order),
        0 <= place < keys.len(),
    ensures
        0 <= turn < order.len(),
        order[turn] == place,
{
    let places = order.map_values(|n: usize| n as int);
    assert(places.no_duplicates()) by {
        assert forall|i: int, j: int| 0 <= i < places.len() && 0 <= j < places.len() && i
            != j implies #[trigger] places[i] != #[trigger] places[j] by {
            if i < j {
                assert(order[i] != order[j]);
            } else {
                assert(order[j] != order[i]);
            }
        }
    }
    places.unique_seq_to_set();
    vstd::set_lib::lemma_int_range(0, keys.len() as int);
    vstd::seq_lib::seq_to_set_is_finite(places);
    assert(places.to_set().subset_of(vstd::set_lib::set_int_range(0, keys.len() as int))) by {
        assert forall|n: int| #[trigger] places.to_set().contains(n) implies 0 <= n
            < keys.len() by {
            let i = places.index_of(n);
            assert(order[i] < keys.len());
        }
    }
    vstd::set_lib::lemma_subset_equality(
        places.to_set(),
        vstd::set_lib::set_int_range(0, keys.len() as int),
    );
    assert(places.to_set().contains(place));
    places.index_of(place)
}

} // verus!
