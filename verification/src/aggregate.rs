//! Folding the cells of a group into one cell: sum, count, mean, median,
//! smallest and largest.

use vstd::prelude::*;
use crate::chart_spec::AggregationType;
use crate::frame::{Cell, CellView};
use crate::measure::{floor_div, floor_mod, max_from, max_of, min_from, min_of};

verus! {

/// The cell for a quantity in thousandths: a whole number where the quantity
/// is whole, else a real; null where it fits neither.
pub open spec fn quantity_cell(m: int) -> CellView {
    if m % 1000 == 0 && i64::MIN <= m / 1000 <= i64::MAX {
        CellView::Int((m / 1000) as i64)
    } else if i64::MIN <= m <= i64::MAX {
        CellView::Real(m as i64)
    } else {
        CellView::Null
    }
}

/// The cell for a quantity in thousandths.
pub fn quantity(m: i128) -> (c: Cell)
    ensures
        c@ == quantity_cell(m as int),
{
    let whole: i128 = floor_div(m, 1000);
    let ghost rest: int = m as int % 1000;
    proof {
        vstd::arithmetic::div_mod::lemma_fundamental_div_mod(m as int, 1000);
        vstd::arithmetic::div_mod::lemma_mod_bound(m as int, 1000);
    }
    let exact: bool = match whole.checked_mul(1000) {
        Some(back) => back == m,
        None => false,
    };
    if exact && -9_223_372_036_854_775_808 <= whole && whole <= 9_223_372_036_854_775_807 {
        Cell::Int(whole as i64)
    } else if -9_223_372_036_854_775_808 <= m && m <= 9_223_372_036_854_775_807 {
        Cell::Real(m as i64)
    } else {
        Cell::Null
    }
}

/// The sum of the values as far as the machine's widest number holds every
/// sum on the way; none where one does not fit.
pub open spec fn checked_sum(values: Seq<i128>) -> Option<i128>
    decreases values.len(),
{
    if values.len() == 0 {
        Some(0)
    } else {
        match checked_sum(values.drop_last()) {
            Some(s) => if i128::MIN <= s + values.last() <= i128::MAX {
                Some((s + values.last()) as i128)
            } else {
                None
            },
            None => None,
        }
    }
}

/// The sum of the values, or none where a sum on the way does not fit.
pub fn sum_checked(values: &Vec<i128>) -> (r: Option<i128>)
    ensures
        r == checked_sum(values@),
{
    let mut total: i128 = 0;
    let mut i: usize = 0;
    assert(values@.take(0) =~= Seq::<i128>::empty());
    while i < values.len()
        invariant
            i <= values.len(),
            checked_sum(values@.take(i as int)) == Some(total),
        decreases values.len() - i,
    {
        assert(values@.take(i + 1).drop_last() =~= values@.take(i as int));
        match total.checked_add(values[i]) {
            Some(next) => {
                total = next;
            },
            None => {
                proof {
                    lemma_sum_stays_none(values@, (i + 1) as int);
                }
                return None;
            },
        }
        i += 1;
    }
    assert(values@.take(values.len() as int) =~= values@);
    Some(total)
}

/// Once a sum does not fit, no longer sum does.
pub proof fn lemma_sum_stays_none(values: Seq<i128>, n: int)
    requires
        0 <= n <= values.len(),
        checked_sum(values.take(n)) is None,
    ensures
        checked_sum(values) is None,
    decreases values.len() - n,
{
    if n < values.len() {
        assert(values.take(n + 1).drop_last() =~= values.take(n));
        lemma_sum_stays_none(values, n + 1);
    } else {
        assert(values.take(n) =~= values);
    }
}

/// The run with `x` put in after the last value that is not above it.
pub open spec fn inserted(sorted: Seq<i128>, x: i128) -> Seq<i128>
    decreases sorted.len(),
{
    if sorted.len() == 0 {
        seq![x]
    } else if sorted.last() <= x {
        sorted.push(x)
    } else {
        inserted(sorted.drop_last(), x).push(sorted.last())
    }
}

/// The values in ascending order.
pub open spec fn sorted_of(values: Seq<i128>) -> Seq<i128>
    decreases values.len(),
{
    if values.len() == 0 {
        Seq::empty()
    } else {
        inserted(sorted_of(values.drop_last()), values.last())
    }
}

/// Putting a value in at the place after the last value not above it.
pub proof fn lemma_inserted_at(sorted: Seq<i128>, x: i128, p: int)
    requires
        0 <= p <= sorted.len(),
        forall|k: int| p <= k < sorted.len() ==> sorted[k] > x,
        p > 0 ==> sorted[p - 1] <= x,
    ensures
        inserted(sorted, x) == sorted.insert(p, x),
    decreases sorted.len(),
{
    if sorted.len() == 0 {
        assert(sorted.insert(p, x) =~= seq![x]);
    } else if p == sorted.len() {
        assert(sorted.insert(p, x) =~= sorted.push(x));
    } else {
        let rest = sorted.drop_last();
        lemma_inserted_at(rest, x, p);
        assert(rest.insert(p, x).push(sorted.last()) =~= sorted.insert(p, x));
    }
}

/// `sorted_of` keeps the number of values and puts them in ascending order.
pub proof fn lemma_sorted_of(values: Seq<i128>)
    ensures
        sorted_of(values).len() == values.len(),
        forall|i: int, j: int|
            0 <= i <= j < values.len() ==> sorted_of(values)[i] <= sorted_of(values)[j],
    decreases values.len(),
{
    if values.len() > 0 {
        lemma_sorted_of(values.drop_last());
        lemma_inserted_sorted(sorted_of(values.drop_last()), values.last());
    }
}

/// Putting a value into an ascending run keeps the run ascending.
pub proof fn lemma_inserted_sorted(sorted: Seq<i128>, x: i128)
    requires
        forall|i: int, j: int| 0 <= i <= j < sorted.len() ==> sorted[i] <= sorted[j],
    ensures
        inserted(sorted, x).len() == sorted.len() + 1,
        forall|i: int, j: int|
            0 <= i <= j < sorted.len() + 1 ==> inserted(sorted, x)[i] <= inserted(sorted, x)[j],
        forall|i: int|
            0 <= i < sorted.len() + 1 ==> inserted(sorted, x)[i] == x || exists|k: int|
                0 <= k < sorted.len() && inserted(sorted, x)[i] == sorted[k],
    decreases sorted.len(),
{
    if sorted.len() > 0 && sorted.last() > x {
        let rest = sorted.drop_last();
        lemma_inserted_sorted(rest, x);
        let r = inserted(rest, x);
        let all = inserted(sorted, x);
        assert forall|i: int| 0 <= i < sorted.len() + 1 implies all[i] == x || exists|k: int|
            0 <= k < sorted.len() && all[i] == sorted[k] by {
            if i < r.len() {
                if r[i] != x {
                    let k = choose|k: int| 0 <= k < rest.len() && r[i] == rest[k];
                    assert(sorted[k] == rest[k]);
                }
            } else {
                assert(all[i] == sorted[sorted.len() - 1]);
            }
        }
        assert forall|i: int, j: int| 0 <= i <= j < sorted.len() + 1 implies all[i]
            <= all[j] by {
            if j == r.len() && i < r.len() {
                if r[i] != x {
                    let k = choose|k: int| 0 <= k < rest.len() && r[i] == rest[k];
                    assert(sorted[k] == rest[k]);
                    assert(sorted[k] <= sorted[sorted.len() - 1]);
                }
            }
        }
    } else if sorted.len() > 0 {
        let all = inserted(sorted, x);
        assert forall|i: int| 0 <= i < sorted.len() + 1 implies all[i] == x || exists|k: int|
            0 <= k < sorted.len() && all[i] == sorted[k] by {
            if i < sorted.len() {
                assert(all[i] == sorted[i]);
            }
        }
        assert forall|i: int, j: int| 0 <= i <= j < sorted.len() + 1 implies all[i]
            <= all[j] by {
            if j == sorted.len() && i < sorted.len() {
                assert(sorted[i] <= sorted[sorted.len() - 1]);
            }
        }
    }
}

/// Putting a value into a run adds that value and no other.
pub proof fn lemma_inserted_adds(sorted: Seq<i128>, x: i128)
    ensures
        inserted(sorted, x).to_multiset() =~= sorted.to_multiset().insert(x),
    decreases sorted.len(),
{
    if sorted.len() == 0 {
        assert(sorted =~= Seq::<i128>::empty());
        assert(seq![x] =~= Seq::<i128>::empty().push(x));
        vstd::seq_lib::to_multiset_build(Seq::<i128>::empty(), x);
    } else if sorted.last() <= x {
        vstd::seq_lib::to_multiset_build(sorted, x);
    } else {
        let rest = sorted.drop_last();
        lemma_inserted_adds(rest, x);
        vstd::seq_lib::to_multiset_build(inserted(rest, x), sorted.last());
        vstd::seq_lib::to_multiset_build(rest, sorted.last());
        assert(rest.push(sorted.last()) =~= sorted);
    }
}

/// `sorted_of` holds the values of the run, each as often as the run does.
pub proof fn law_sorted_of_permutes(values: Seq<i128>)
    ensures
        sorted_of(values).to_multiset() =~= values.to_multiset(),
    decreases values.len(),
{
    if values.len() > 0 {
        let rest = values.drop_last();
        law_sorted_of_permutes(rest);
        lemma_inserted_adds(sorted_of(rest), values.last());
        vstd::seq_lib::to_multiset_build(rest, values.last());
        assert(rest.push(values.last()) =~= values);
    } else {
        assert(values =~= Seq::<i128>::empty());
    }
}

/// The values in ascending order.
pub fn sort_values(values: &Vec<i128>) -> (sorted: Vec<i128>)
    ensures
        sorted@ == sorted_of(values@),
        sorted@.len() == values@.len(),
{
    let mut sorted: Vec<i128> = Vec::new();
    let mut i: usize = 0;
    assert(values@.take(0) =~= Seq::<i128>::empty());
    while i < values.len()
        invariant
            i <= values.len(),
            sorted@ == sorted_of(values@.take(i as int)),
            sorted@.len() == i,
        decreases values.len() - i,
    {
        let x: i128 = values[i];
        let mut p: usize = sorted.len();
        while p > 0 && sorted[p - 1] > x
            invariant
                p <= sorted@.len(),
                forall|k: int| p <= k < sorted@.len() ==> sorted@[k] > x,
            decreases p,
        {
            p -= 1;
        }
        proof {
            lemma_inserted_at(sorted@, x, p as int);
            assert(values@.take(i + 1).drop_last() =~= values@.take(i as int));
        }
        sorted.insert(p, x);
        i += 1;
    }
    assert(values@.take(values.len() as int) =~= values@);
    sorted
}

/// The median of the values: the middle one in ascending order, or the mean
/// of the two middle ones, rounded toward the floor.
pub open spec fn median_of(values: Seq<i128>) -> int {
    (sorted_of(values)[(values.len() - 1) / 2] + sorted_of(values)[values.len() as int / 2]) / 2
}

/// The cell that folds the quantities of a group, `count` being the number of
/// its cells that are not null. The sum of no quantity is zero; the count
/// counts every cell that is not null; mean, median, smallest and largest of
/// no quantity are null. A mean is rounded toward the floor. A sum that the
/// machine's widest number cannot hold gives null.
pub open spec fn folded(agg: AggregationType, measures: Seq<i128>, count: nat) -> CellView {
    match agg {
        AggregationType::Count => if count <= u64::MAX {
            CellView::UInt(count as u64)
        } else {
            CellView::Null
        },
        AggregationType::Sum => match checked_sum(measures) {
            Some(s) => quantity_cell(s as int),
            None => CellView::Null,
        },
        AggregationType::Mean => match checked_sum(measures) {
            Some(s) => if measures.len() > 0 {
                quantity_cell(s as int / measures.len() as int)
            } else {
                CellView::Null
            },
            None => CellView::Null,
        },
        AggregationType::Median => if measures.len() > 0 {
            quantity_cell(median_of(measures))
        } else {
            CellView::Null
        },
        AggregationType::Min => if measures.len() > 0 {
            quantity_cell(min_from(measures[0] as int, measures))
        } else {
            CellView::Null
        },
        AggregationType::Max => if measures.len() > 0 {
            quantity_cell(max_from(measures[0] as int, measures))
        } else {
            CellView::Null
        },
    }
}

/// Folds the quantities of a group into one cell.
/// The mean of two quantities, rounded toward the floor: the halves are
/// added, so no sum stands that could be too large.
fn mean_of_two(low: i128, high: i128) -> (m: i128)
    ensures
        m == (low + high) / 2,
{
    let half_low: i128 = floor_div(low, 2);
    let half_high: i128 = floor_div(high, 2);
    let both_odd: bool = floor_mod(low, 2) == 1 && floor_mod(high, 2) == 1;
    if both_odd {
        half_low + half_high + 1
    } else {
        half_low + half_high
    }
}

pub fn fold(agg: &AggregationType, measures: &Vec<i128>, count: usize) -> (c: Cell)
    ensures
        c@ == folded(*agg, measures@, count as nat),
{
    match agg {
        AggregationType::Count => Cell::UInt(count as u64),
        AggregationType::Sum => match sum_checked(measures) {
            Some(s) => quantity(s),
            None => Cell::Null,
        },
        AggregationType::Mean => match sum_checked(measures) {
            Some(s) => if measures.len() > 0 {
                quantity(floor_div(s, measures.len() as i128))
            } else {
                Cell::Null
            },
            None => Cell::Null,
        },
        AggregationType::Median => if measures.len() > 0 {
            let sorted: Vec<i128> = sort_values(measures);
            let n: usize = measures.len();
            let low: i128 = sorted[(n - 1) / 2];
            let high: i128 = sorted[n / 2];
            quantity(mean_of_two(low, high))
        } else {
            Cell::Null
        },
        AggregationType::Min => if measures.len() > 0 {
            quantity(min_of(measures[0], measures))
        } else {
            Cell::Null
        },
        AggregationType::Max => if measures.len() > 0 {
            quantity(max_of(measures[0], measures))
        } else {
            Cell::Null
        },
    }
}

} // verus!
