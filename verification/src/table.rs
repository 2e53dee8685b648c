//! Rows in memory: finding, counting and removing those that meet a condition.

use std::sync::Arc;
use vstd::prelude::*;

use crate::error::{Refusal, StorageResult};
use crate::message::share;

verus! {

/// The condition that every row meets.
pub open spec fn is_any<R>() -> spec_fn(R) -> bool {
    |row: R| true
}

/// Whether some row meets the condition.
pub open spec fn some_row<R>(rows: Seq<R>, condition: spec_fn(R) -> bool) -> bool {
    exists|i: int| 0 <= i < rows.len() && condition(#[trigger] rows[i])
}

/// The place of the first row from `from` on that meets the condition.
pub open spec fn first_from<R>(rows: Seq<R>, condition: spec_fn(R) -> bool, from: int) -> Option<int>
    decreases rows.len() - from,
{
    if from >= rows.len() {
        None
    } else if condition(rows[from]) {
        Some(from)
    } else {
        first_from(rows, condition, from + 1)
    }
}

/// The place of the first row that meets the condition.
pub open spec fn first<R>(rows: Seq<R>, condition: spec_fn(R) -> bool) -> Option<int> {
    first_from(rows, condition, 0)
}

/// What is known of the first row that meets the condition.
pub proof fn first_is_found<R>(rows: Seq<R>, condition: spec_fn(R) -> bool)
    ensures
        match first(rows, condition) {
            Some(i) => {
                &&& 0 <= i < rows.len()
                &&& condition(rows[i])
                &&& forall|j: int| 0 <= j < i ==> !condition(#[trigger] rows[j])
            },
            None => forall|j: int| 0 <= j < rows.len() ==> !condition(#[trigger] rows[j]),
        },
        first(rows, condition) is Some <==> some_row(rows, condition),
{
    first_from_is_found(rows, condition, 0);
}

proof fn first_from_is_found<R>(rows: Seq<R>, condition: spec_fn(R) -> bool, from: int)
    requires
        0 <= from,
    ensures
        match first_from(rows, condition, from) {
            Some(i) => {
                &&& from <= i < rows.len()
                &&& condition(rows[i])
                &&& forall|j: int| from <= j < i ==> !condition(#[trigger] rows[j])
            },
            None => forall|j: int| from <= j < rows.len() ==> !condition(#[trigger] rows[j]),
        },
    decreases rows.len() - from,
{
    if from < rows.len() && !condition(rows[from]) {
        first_from_is_found(rows, condition, from + 1);
    }
}

/// The first row that meets the condition stays the first one when all rows before it keep
/// failing it.
pub proof fn first_is<R>(rows: Seq<R>, condition: spec_fn(R) -> bool, place: int)
    requires
        0 <= place < rows.len(),
        condition(rows[place]),
        forall|j: int| 0 <= j < place ==> !condition(#[trigger] rows[j]),
    ensures
        first(rows, condition) == Some(place),
{
    first_is_found(rows, condition);
}

/// Replacing a row by one that meets the condition just as it did leaves the first one in place.
pub proof fn first_after_update<R>(
    rows: Seq<R>,
    condition: spec_fn(R) -> bool,
    place: int,
    row: R,
)
    requires
        0 <= place < rows.len(),
        condition(row) == condition(rows[place]),
    ensures
        first(rows.update(place, row), condition) == first(rows, condition),
{
    let after = rows.update(place, row);
    first_is_found(rows, condition);
    first_is_found(after, condition);
    match first(rows, condition) {
        Some(i) => {
            assert(condition(after[i]));
            assert forall|j: int| 0 <= j < i implies !condition(#[trigger] after[j]) by {
                assert(!condition(rows[j]));
            }
            first_is(after, condition, i);
        },
        None => {
            assert forall|j: int| 0 <= j < after.len() implies !condition(#[trigger] after[j]) by {
                assert(!condition(rows[j]));
            }
        },
    }
}

/// A row of two lists together is a row of one of them.
pub proof fn some_row_in_parts<R>(left: Seq<R>, right: Seq<R>, condition: spec_fn(R) -> bool)
    ensures
        some_row(left + right, condition) == (some_row(left, condition) || some_row(
            right,
            condition,
        )),
{
    if some_row(left, condition) {
        let i = choose|i: int| 0 <= i < left.len() && condition(#[trigger] left[i]);
        assert((left + right)[i] == left[i]);
    }
    if some_row(right, condition) {
        let i = choose|i: int| 0 <= i < right.len() && condition(#[trigger] right[i]);
        assert((left + right)[left.len() + i] == right[i]);
    }
    if some_row(left + right, condition) {
        let i = choose|i: int|
            0 <= i < (left + right).len() && condition(#[trigger] (left + right)[i]);
        if i < left.len() {
            assert(condition(left[i]));
        } else {
            assert(condition(right[i - left.len()]));
        }
    }
}

/// The place of the first row that passes `test`.
pub(crate) fn position<R, F: Fn(&R) -> bool>(
    rows: &Vec<R>,
    Ghost(condition): Ghost<spec_fn(R) -> bool>,
    test: F,
) -> (place: Option<usize>)
    requires
        forall|row: &R| test.requires((row,)),
        forall|row: &R, passed: bool| test.ensures((row,), passed) ==> passed == condition(*row),
    ensures
        match place {
            Some(i) => {
                &&& i < rows@.len()
                &&& condition(rows@[i as int])
                &&& first(rows@, condition) == Some(i as int)
                &&& some_row(rows@, condition)
            },
            None => first(rows@, condition) is None && !some_row(rows@, condition),
        },
{
    let mut i: usize = 0;
    while i < rows.len()
        invariant
            i <= rows@.len(),
            forall|row: &R| test.requires((row,)),
            forall|row: &R, passed: bool|
                test.ensures((row,), passed) ==> passed == condition(*row),
            forall|j: int| 0 <= j < i ==> !condition(#[trigger] rows@[j]),
        decreases rows@.len() - i,
    {
        if test(&rows[i]) {
            proof {
                first_is(rows@, condition, i as int);
            }
            return Some(i);
        }
        i += 1;
    }
    proof {
        first_is_found(rows@, condition);
    }
    None
}

/// Whether some row passes `test`.
pub(crate) fn any<R, F: Fn(&R) -> bool>(
    rows: &Vec<R>,
    Ghost(condition): Ghost<spec_fn(R) -> bool>,
    test: F,
) -> (result: bool)
    requires
        forall|row: &R| test.requires((row,)),
        forall|row: &R, passed: bool| test.ensures((row,), passed) ==> passed == condition(*row),
    ensures
        result == some_row(rows@, condition),
{
    position(rows, Ghost(condition), test).is_some()
}

/// The rows that meet the condition, in order.
pub open spec fn kept<R>(rows: Seq<R>, condition: spec_fn(R) -> bool) -> Seq<R>
    decreases rows.len(),
{
    if rows.len() == 0 {
        rows
    } else {
        let earlier = kept(rows.drop_last(), condition);
        if condition(rows.last()) {
            earlier.push(rows.last())
        } else {
            earlier
        }
    }
}

/// What is known of the rows that are kept.
pub proof fn kept_rows<R>(rows: Seq<R>, condition: spec_fn(R) -> bool)
    ensures
        kept(rows, condition).len() <= rows.len(),
        forall|i: int|
            0 <= i < kept(rows, condition).len() ==> condition(#[trigger] kept(rows, condition)[i])
                && rows.contains(kept(rows, condition)[i]),
        forall|row: R|
            #[trigger] rows.contains(row) && condition(row) ==> kept(rows, condition).contains(row),
    decreases rows.len(),
{
    if rows.len() > 0 {
        let shorter = rows.drop_last();
        let earlier = kept(shorter, condition);
        let all = kept(rows, condition);
        kept_rows(shorter, condition);
        assert forall|i: int| 0 <= i < all.len() implies condition(#[trigger] all[i])
            && rows.contains(all[i]) by {
            if i < earlier.len() {
                assert(all[i] == earlier[i]);
                let k = shorter.index_of(all[i]);
                assert(shorter[k] == all[i]);
                assert(rows[k] == all[i]);
            } else {
                assert(rows[rows.len() - 1] == all[i]);
            }
        }
        assert forall|row: R| #[trigger] rows.contains(row) && condition(row) implies all.contains(
            row,
        ) by {
            let k = rows.index_of(row);
            if k == rows.len() - 1 {
                assert(all[all.len() - 1] == row);
            } else {
                assert(shorter[k] == row);
                assert(shorter.contains(row));
                assert(earlier.contains(row));
                let m = earlier.index_of(row);
                assert(all[m] == row);
            }
        }
    }
}

/// Nothing is dropped where every row meets the condition.
pub proof fn all_rows_kept<R>(rows: Seq<R>, condition: spec_fn(R) -> bool)
    requires
        forall|i: int| 0 <= i < rows.len() ==> condition(#[trigger] rows[i]),
    ensures
        kept(rows, condition) == rows,
    decreases rows.len(),
{
    if rows.len() > 0 {
        assert forall|i: int| 0 <= i < rows.drop_last().len() implies condition(
            #[trigger] rows.drop_last()[i],
        ) by {
            assert(rows.drop_last()[i] == rows[i]);
        }
        all_rows_kept(rows.drop_last(), condition);
        assert(rows.drop_last().push(rows.last()) =~= rows);
    }
}

/// Keeping twice keeps no less than keeping once.
pub proof fn kept_twice<R>(rows: Seq<R>, condition: spec_fn(R) -> bool)
    ensures
        kept(kept(rows, condition), condition) == kept(rows, condition),
{
    kept_rows(rows, condition);
    all_rows_kept(kept(rows, condition), condition);
}

/// Where every row that meets a condition is kept, the first of them is the same.
pub proof fn first_kept_row<R>(
    rows: Seq<R>,
    keeping: spec_fn(R) -> bool,
    condition: spec_fn(R) -> bool,
)
    requires
        forall|row: R| #[trigger] condition(row) ==> keeping(row),
    ensures
        match (first(rows, condition), first(kept(rows, keeping), condition)) {
            (Some(i), Some(k)) => 0 <= i < rows.len() && 0 <= k < kept(rows, keeping).len()
                && rows[i] == kept(rows, keeping)[k],
            (None, None) => true,
            _ => false,
        },
    decreases rows.len(),
{
    let list = kept(rows, keeping);
    first_is_found(rows, condition);
    first_is_found(list, condition);
    if rows.len() > 0 {
        let shorter = rows.drop_last();
        let earlier = kept(shorter, keeping);
        first_kept_row(shorter, keeping, condition);
        first_is_found(shorter, condition);
        first_is_found(earlier, condition);
        match first(shorter, condition) {
            Some(i) => {
                let k = first(earlier, condition)->0;
                assert forall|j: int| 0 <= j < i implies !condition(#[trigger] rows[j]) by {
                    assert(shorter[j] == rows[j]);
                }
                first_is(rows, condition, i);
                assert forall|j: int| 0 <= j < k implies !condition(#[trigger] list[j]) by {
                    assert(earlier[j] == list[j]);
                }
                assert(list[k] == earlier[k]);
                first_is(list, condition, k);
            },
            None => {
                let last = rows.len() - 1;
                assert forall|j: int| 0 <= j < last implies !condition(#[trigger] rows[j]) by {
                    assert(shorter[j] == rows[j]);
                }
                if condition(rows.last()) {
                    first_is(rows, condition, last);
                    assert forall|j: int| 0 <= j < earlier.len() implies !condition(
                        #[trigger] list[j],
                    ) by {
                        assert(earlier[j] == list[j]);
                    }
                    first_is(list, condition, earlier.len() as int);
                } else {
                    assert forall|j: int| 0 <= j < list.len() implies !condition(
                        #[trigger] list[j],
                    ) by {
                        if j < earlier.len() {
                            assert(earlier[j] == list[j]);
                        }
                    }
                }
            },
        }
    }
}

/// A kept row meets a condition exactly when some row is kept and meets it.
pub proof fn some_kept_row<R>(
    rows: Seq<R>,
    keeping: spec_fn(R) -> bool,
    condition: spec_fn(R) -> bool,
    both: spec_fn(R) -> bool,
)
    requires
        forall|row: R| #[trigger] both(row) == (keeping(row) && condition(row)),
    ensures
        some_row(kept(rows, keeping), condition) == some_row(rows, both),
{
    kept_rows(rows, keeping);
    let list = kept(rows, keeping);
    if some_row(list, condition) {
        let i = choose|i: int| 0 <= i < list.len() && condition(#[trigger] list[i]);
        assert(rows.contains(list[i]));
        let k = rows.index_of(list[i]);
        assert(rows[k] == list[i]);
        assert(both(rows[k]));
    }
    if some_row(rows, both) {
        let k = choose|k: int| 0 <= k < rows.len() && both(#[trigger] rows[k]);
        assert(rows.contains(rows[k]));
        assert(list.contains(rows[k]));
        let i = list.index_of(rows[k]);
        assert(condition(list[i]));
    }
}

/// Keeps the rows that pass `test`.
pub(crate) fn keep<R, F: Fn(&R) -> bool>(
    rows: &mut Vec<R>,
    Ghost(condition): Ghost<spec_fn(R) -> bool>,
    test: F,
)
    requires
        forall|row: &R| test.requires((row,)),
        forall|row: &R, passed: bool| test.ensures((row,), passed) ==> passed == condition(*row),
    ensures
        final(rows)@ == kept(old(rows)@, condition),
{
    let ghost all = rows@;
    let ghost mut seen: int = 0;
    let mut i: usize = 0;
    proof {
        assert(all.take(0) =~= Seq::empty());
        assert(rows@ =~= kept(all.take(0), condition) + all.skip(0));
    }
    while i < rows.len()
        invariant
            i <= rows@.len(),
            0 <= seen <= all.len(),
            i == kept(all.take(seen), condition).len(),
            rows@ == kept(all.take(seen), condition) + all.skip(seen),
            forall|row: &R| test.requires((row,)),
            forall|row: &R, passed: bool|
                test.ensures((row,), passed) ==> passed == condition(*row),
        decreases rows@.len() - i,
    {
        let ghost before = rows@;
        proof {
            assert(rows@[i as int] == all[seen]);
            assert(all.take(seen + 1).drop_last() =~= all.take(seen));
            assert(all.take(seen + 1).last() == all[seen]);
        }
        if test(&rows[i]) {
            proof {
                assert(before =~= kept(all.take(seen), condition).push(all[seen]) + all.skip(
                    seen + 1,
                ));
            }
            i += 1;
        } else {
            rows.remove(i);
            proof {
                assert(rows@ =~= kept(all.take(seen), condition) + all.skip(seen + 1));
            }
        }
        proof {
            seen = seen + 1;
        }
    }
    proof {
        assert(all.take(all.len() as int) =~= all);
        assert(seen == all.len()) by {
            assert(rows@.len() == i + (all.len() - seen));
        }
        assert(rows@ =~= kept(all, condition));
    }
}

/// How many rows pass `test`.
pub(crate) fn count<R, F: Fn(&R) -> bool>(
    rows: &Vec<R>,
    Ghost(condition): Ghost<spec_fn(R) -> bool>,
    test: F,
) -> (number: usize)
    requires
        forall|row: &R| test.requires((row,)),
        forall|row: &R, passed: bool| test.ensures((row,), passed) ==> passed == condition(*row),
    ensures
        number == kept(rows@, condition).len(),
{
    let mut number: usize = 0;
    let mut i: usize = 0;
    proof {
        assert(rows@.take(0) =~= Seq::empty());
    }
    while i < rows.len()
        invariant
            number <= i <= rows@.len(),
            number == kept(rows@.take(i as int), condition).len(),
            forall|row: &R| test.requires((row,)),
            forall|row: &R, passed: bool|
                test.ensures((row,), passed) ==> passed == condition(*row),
        decreases rows@.len() - i,
    {
        proof {
            assert(rows@.take(i + 1).drop_last() =~= rows@.take(i as int));
            assert(rows@.take(i + 1).last() == rows@[i as int]);
        }
        if test(&rows[i]) {
            number += 1;
        }
        i += 1;
    }
    proof {
        assert(rows@.take(rows@.len() as int) =~= rows@);
    }
    number
}

/// Handles on the rows that pass `test`, in order.
pub(crate) fn selected<R, F: Fn(&Arc<R>) -> bool>(
    rows: &Vec<Arc<R>>,
    Ghost(condition): Ghost<spec_fn(Arc<R>) -> bool>,
    test: F,
) -> (result: Vec<Arc<R>>)
    requires
        forall|row: &Arc<R>| test.requires((row,)),
        forall|row: &Arc<R>, passed: bool|
            test.ensures((row,), passed) ==> passed == condition(*row),
    ensures
        result@ == kept(rows@, condition),
{
    let mut result: Vec<Arc<R>> = Vec::new();
    let mut i: usize = 0;
    proof {
        assert(rows@.take(0) =~= Seq::empty());
        assert(result@ =~= kept(rows@.take(0), condition));
    }
    while i < rows.len()
        invariant
            i <= rows@.len(),
            result@ == kept(rows@.take(i as int), condition),
            forall|row: &Arc<R>| test.requires((row,)),
            forall|row: &Arc<R>, passed: bool|
                test.ensures((row,), passed) ==> passed == condition(*row),
        decreases rows@.len() - i,
    {
        proof {
            assert(rows@.take(i + 1).drop_last() =~= rows@.take(i as int));
            assert(rows@.take(i + 1).last() == rows@[i as int]);
        }
        if test(&rows[i]) {
            result.push(share(&rows[i]));
        }
        i += 1;
    }
    proof {
        assert(rows@.take(rows@.len() as int) =~= rows@);
    }
    result
}

/// Copies of the rows that pass `test`, in order.
pub(crate) fn copies<R, F: Fn(&R) -> bool, G: Fn(&R) -> R>(
    rows: &Vec<R>,
    Ghost(condition): Ghost<spec_fn(R) -> bool>,
    test: F,
    copy: G,
) -> (result: Vec<R>)
    requires
        forall|row: &R| test.requires((row,)),
        forall|row: &R, passed: bool| test.ensures((row,), passed) ==> passed == condition(*row),
        forall|row: &R| copy.requires((row,)),
        forall|row: &R, same: R| copy.ensures((row,), same) ==> same == *row,
    ensures
        result@ == kept(rows@, condition),
{
    let mut result: Vec<R> = Vec::new();
    let mut i: usize = 0;
    proof {
        assert(rows@.take(0) =~= Seq::empty());
        assert(result@ =~= kept(rows@.take(0), condition));
    }
    while i < rows.len()
        invariant
            i <= rows@.len(),
            result@ == kept(rows@.take(i as int), condition),
            forall|row: &R| test.requires((row,)),
            forall|row: &R, passed: bool|
                test.ensures((row,), passed) ==> passed == condition(*row),
            forall|row: &R| copy.requires((row,)),
            forall|row: &R, same: R| copy.ensures((row,), same) ==> same == *row,
        decreases rows@.len() - i,
    {
        proof {
            assert(rows@.take(i + 1).drop_last() =~= rows@.take(i as int));
            assert(rows@.take(i + 1).last() == rows@[i as int]);
        }
        if test(&rows[i]) {
            result.push(copy(&rows[i]));
        }
        i += 1;
    }
    proof {
        assert(rows@.take(rows@.len() as int) =~= rows@);
    }
    result
}

/// The texts that `id` gives for the rows that pass `test`, in order.
pub(crate) fn listed<R, F: Fn(&R) -> bool, G: Fn(&R) -> String>(
    rows: &Vec<R>,
    Ghost(condition): Ghost<spec_fn(R) -> bool>,
    test: F,
    Ghost(key): Ghost<spec_fn(R) -> String>,
    id: G,
) -> (list: Vec<String>)
    requires
        forall|row: &R| test.requires((row,)),
        forall|row: &R, passed: bool| test.ensures((row,), passed) ==> passed == condition(*row),
        forall|row: &R| id.requires((row,)),
        forall|row: &R, text: String| id.ensures((row,), text) ==> text == key(*row),
    ensures
        list@ == kept(rows@, condition).map_values(key),
{
    let mut list: Vec<String> = Vec::new();
    let mut i: usize = 0;
    proof {
        assert(rows@.take(0) =~= Seq::empty());
        assert(list@ =~= kept(rows@.take(0), condition).map_values(key));
    }
    while i < rows.len()
        invariant
            i <= rows@.len(),
            list@ == kept(rows@.take(i as int), condition).map_values(key),
            forall|row: &R| test.requires((row,)),
            forall|row: &R, passed: bool|
                test.ensures((row,), passed) ==> passed == condition(*row),
            forall|row: &R| id.requires((row,)),
            forall|row: &R, text: String| id.ensures((row,), text) ==> text == key(*row),
        decreases rows@.len() - i,
    {
        proof {
            assert(rows@.take(i + 1).drop_last() =~= rows@.take(i as int));
            assert(rows@.take(i + 1).last() == rows@[i as int]);
        }
        if test(&rows[i]) {
            let ghost earlier = kept(rows@.take(i as int), condition);
            list.push(id(&rows[i]));
            proof {
                assert(earlier.push(rows@[i as int]).map_values(key) =~= earlier.map_values(
                    key,
                ).push(key(rows@[i as int])));
            }
        }
        i += 1;
    }
    proof {
        assert(rows@.take(rows@.len() as int) =~= rows@);
    }
    list
}

/// Why the first row that is refused is refused.
pub open spec fn first_refusal<R>(rows: Seq<R>, refusal: spec_fn(R) -> Option<Refusal>) -> Option<
    Refusal,
>
    decreases rows.len(),
{
    if rows.len() == 0 {
        None
    } else if first_refusal(rows.drop_last(), refusal) is Some {
        first_refusal(rows.drop_last(), refusal)
    } else {
        refusal(rows.last())
    }
}

proof fn first_refusal_stays<R>(rows: Seq<R>, refusal: spec_fn(R) -> Option<Refusal>, n: int)
    requires
        0 <= n <= rows.len(),
        first_refusal(rows.take(n), refusal) is Some,
    ensures
        first_refusal(rows, refusal) == first_refusal(rows.take(n), refusal),
    decreases rows.len() - n,
{
    if n < rows.len() {
        assert(rows.take(n + 1).drop_last() =~= rows.take(n));
        first_refusal_stays(rows, refusal, n + 1);
    } else {
        assert(rows.take(n) =~= rows);
    }
}

/// Where no row is refused, none is.
pub proof fn nothing_refused<R>(rows: Seq<R>, refusal: spec_fn(R) -> Option<Refusal>)
    requires
        first_refusal(rows, refusal) is None,
    ensures
        forall|i: int| 0 <= i < rows.len() ==> refusal(#[trigger] rows[i]) is None,
    decreases rows.len(),
{
    if rows.len() > 0 {
        nothing_refused(rows.drop_last(), refusal);
        assert forall|i: int| 0 <= i < rows.len() implies refusal(#[trigger] rows[i]) is None by {
            if i < rows.len() - 1 {
                assert(rows.drop_last()[i] == rows[i]);
            }
        }
    }
}

/// Checks rows in order, up to the first that is refused.
pub(crate) fn check_each<R, F: Fn(&R) -> StorageResult<()>>(
    rows: &Vec<R>,
    Ghost(refusal): Ghost<spec_fn(R) -> Option<Refusal>>,
    check: F,
) -> (result: StorageResult<()>)
    requires
        forall|row: &R| check.requires((row,)),
        forall|row: &R, result: StorageResult<()>|
            check.ensures((row,), result) ==> match refusal(*row) {
                Some(error) => result is Err && result->Err_0@ == error,
                None => result is Ok,
            },
    ensures
        match first_refusal(rows@, refusal) {
            Some(error) => result is Err && result->Err_0@ == error,
            None => result is Ok,
        },
{
    let mut i: usize = 0;
    proof {
        assert(rows@.take(0) =~= Seq::empty());
    }
    while i < rows.len()
        invariant
            i <= rows@.len(),
            first_refusal(rows@.take(i as int), refusal) is None,
            forall|row: &R| check.requires((row,)),
            forall|row: &R, result: StorageResult<()>|
                check.ensures((row,), result) ==> match refusal(*row) {
                    Some(error) => result is Err && result->Err_0@ == error,
                    None => result is Ok,
                },
        decreases rows@.len() - i,
    {
        proof {
            assert(rows@.take(i + 1).drop_last() =~= rows@.take(i as int));
            assert(rows@.take(i + 1).last() == rows@[i as int]);
            if first_refusal(rows@.take(i + 1), refusal) is Some {
                first_refusal_stays(rows@, refusal, i + 1);
            }
        }
        match check(&rows[i]) {
            Ok(_) => {},
            Err(error) => {
                return Err(error);
            },
        }
        i += 1;
    }
    proof {
        assert(rows@.take(rows@.len() as int) =~= rows@);
    }
    Ok(())
}

} // verus!
