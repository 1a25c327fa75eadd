//! The median of a list of numbers.

use vstd::prelude::*;
use vstd::relations::{sorted_by, total_ordering};
use vstd::seq_lib::lemma_sorted_unique;

verus! {

/// The order of the integers.
pub open spec fn spec_leq() -> spec_fn(i64, i64) -> bool {
    |a: i64, b: i64| a <= b
}

/// The middle of a list that is not empty: the element that stands at place
/// `(len - 1) / 2` once the list is in ascending order. For a list of even
/// length that is the lower of its two middle elements.
pub open spec fn spec_median(values: Seq<i64>) -> i64 {
    values.sort_by(spec_leq())[(values.len() - 1) / 2]
}

/// The order of the integers is total.
pub proof fn lemma_leq_is_total()
    ensures
        total_ordering(spec_leq()),
{
    let leq = spec_leq();
    assert(vstd::relations::reflexive(leq));
    assert(vstd::relations::antisymmetric(leq));
    assert(vstd::relations::transitive(leq));
    assert(vstd::relations::strongly_connected(leq));
}

/// A list in ascending order with the elements of `values` is the sorted
/// `values`.
pub proof fn lemma_ascending_is_sorted(values: Seq<i64>, ascending: Seq<i64>)
    requires
        sorted_by(ascending, spec_leq()),
        ascending.to_multiset() == values.to_multiset(),
    ensures
        ascending == values.sort_by(spec_leq()),
{
    lemma_leq_is_total();
    values.lemma_sort_by_ensures(spec_leq());
    lemma_sorted_unique(ascending, values.sort_by(spec_leq()), spec_leq());
}

/// The median of a list whose elements are all `value` is `value`.
pub proof fn lemma_median_of_constant(values: Seq<i64>, value: i64)
    requires
        values.len() > 0,
        forall|place: int| 0 <= place < values.len() ==> values[place] == value,
    ensures
        spec_median(values) == value,
{
    assert forall|first: int, second: int| 0 <= first < second < values.len() implies #[trigger] spec_leq()(
        values[first],
        values[second],
    ) by {}
    lemma_ascending_is_sorted(values, values);
}

/// One element that differs from all the others does not move the median of a
/// list of three or more: where every element but the one at `odd` is `value`,
/// the median is `value`.
pub proof fn lemma_median_ignores_one_outlier(values: Seq<i64>, value: i64, odd: int)
    requires
        values.len() >= 3,
        0 <= odd < values.len(),
        forall|place: int| 0 <= place < values.len() && place != odd ==> values[place] == value,
    ensures
        spec_median(values) == value,
{
    let length = values.len();
    let constant = Seq::new(length, |place: int| value);
    let target: int = if values[odd] < value {
        0
    } else {
        length - 1
    };
    let ascending = constant.update(target, values[odd]);
    assert(values =~= constant.update(odd, values[odd]));
    vstd::seq_lib::to_multiset_update(constant, odd, values[odd]);
    vstd::seq_lib::to_multiset_update(constant, target, values[odd]);
    assert(constant[odd] == constant[target]);
    assert forall|first: int, second: int| 0 <= first < second < ascending.len() implies #[trigger] spec_leq()(
        ascending[first],
        ascending[second],
    ) by {}
    lemma_ascending_is_sorted(values, ascending);
    assert(ascending[(length - 1) / 2] == value);
}

/// The elements of `values` in ascending order.
pub fn sorted(values: &Vec<i64>) -> (ascending: Vec<i64>)
    ensures
        ascending@ == values@.sort_by(spec_leq()),
        ascending@.len() == values@.len(),
{
    let mut ascending: Vec<i64> = Vec::new();
    let mut taken: usize = 0;
    assert(ascending@ =~= values@.take(0));
    while taken < values.len()
        invariant
            taken <= values.len(),
            ascending@.len() == taken,
            sorted_by(ascending@, spec_leq()),
            ascending@.to_multiset() == values@.take(taken as int).to_multiset(),
        decreases values.len() - taken,
    {
        let value = values[taken];
        let mut place: usize = 0;
        while place < ascending.len() && ascending[place] <= value
            invariant
                place <= ascending.len(),
                forall|before: int| 0 <= before < place ==> ascending@[before] <= value,
            decreases ascending.len() - place,
        {
            place = place + 1;
        }
        let ghost previous = ascending@;
        ascending.insert(place, value);
        proof {
            vstd::seq_lib::to_multiset_insert(previous, place as int, value);
            vstd::seq_lib::to_multiset_build(values@.take(taken as int), value);
            assert(values@.take(taken as int).push(value) =~= values@.take(taken + 1));
            assert forall|first: int, second: int|
                0 <= first < second < ascending@.len() implies #[trigger] spec_leq()(
                ascending@[first],
                ascending@[second],
            ) by {
                if first < place && second > place {
                    assert(spec_leq()(previous[first], previous[second - 1]));
                } else if first < place && second < place {
                    assert(spec_leq()(previous[first], previous[second]));
                } else if first > place {
                    assert(spec_leq()(previous[first - 1], previous[second - 1]));
                } else if first == place {
                    if place < second - 1 {
                        assert(spec_leq()(previous[place as int], previous[second - 1]));
                    }
                }
            }
        }
        taken = taken + 1;
    }
    proof {
        assert(values@.take(taken as int) =~= values@);
        lemma_ascending_is_sorted(values@, ascending@);
    }
    ascending
}

/// The median of `values`, and `None` where the list is empty.
pub fn median(values: &Vec<i64>) -> (middle: Option<i64>)
    ensures
        middle == (if values@.len() == 0 {
            None
        } else {
            Some(spec_median(values@))
        }),
{
    if values.len() == 0 {
        None
    } else {
        let ascending = sorted(values);
        Some(ascending[(values.len() - 1) / 2])
    }
}

} // verus!
