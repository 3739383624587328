//! Arithmetic on quantities counted in thousandths: division toward the
//! floor, extremes and sums of a run of quantities.

use vstd::prelude::*;
use crate::frame::{plotted, CellView, Frame, plotted_value, MEASURE_LIMIT};

verus! {

/// The quotient of `a` by a positive `b`, rounded toward the floor.
pub fn floor_div(a: i128, b: i128) -> (q: i128)
    requires
        b > 0,
    ensures
        q == a as int / b as int,
{
    if a >= 0 {
        a / b
    } else {
        // For a negative `a`, count up from the value just below zero.
        let n: i128 = -(a + 1);
        let t: i128 = n / b;
        let ghost r: int = n as int % b as int;
        proof {
            vstd::arithmetic::div_mod::lemma_fundamental_div_mod(n as int, b as int);
            assert(a as int == (-t - 1) * b + (b - r - 1)) by (nonlinear_arith)
                requires
                    n as int == b * t + r,
                    a as int == -(n + 1),
            ;
            vstd::arithmetic::div_mod::lemma_fundamental_div_mod_converse(
                a as int,
                b as int,
                -t - 1,
                b - r - 1,
            );
        }
        -t - 1
    }
}

/// The largest of `start` and the values of the run.
pub open spec fn max_from(start: int, values: Seq<i128>) -> int
    decreases values.len(),
{
    if values.len() == 0 {
        start
    } else if max_from(start, values.drop_last()) >= values.last() {
        max_from(start, values.drop_last())
    } else {
        values.last() as int
    }
}

/// The smallest of `start` and the values of the run.
pub open spec fn min_from(start: int, values: Seq<i128>) -> int
    decreases values.len(),
{
    if values.len() == 0 {
        start
    } else if min_from(start, values.drop_last()) <= values.last() {
        min_from(start, values.drop_last())
    } else {
        values.last() as int
    }
}

/// `max_from` is an upper bound that is reached.
pub proof fn lemma_max_from(start: int, values: Seq<i128>)
    ensures
        max_from(start, values) >= start,
        forall|i: int| 0 <= i < values.len() ==> max_from(start, values) >= #[trigger] values[i],
        max_from(start, values) == start || exists|i: int|
            0 <= i < values.len() && max_from(start, values) == #[trigger] values[i],
    decreases values.len(),
{
    if values.len() > 0 {
        let rest = values.drop_last();
        lemma_max_from(start, rest);
        assert forall|i: int| 0 <= i < values.len() implies max_from(start, values)
            >= #[trigger] values[i] by {
            if i < rest.len() {
                assert(rest[i] == values[i]);
            }
        }
        if max_from(start, values) != start {
            if max_from(start, rest) >= values.last() {
                let i = choose|i: int| 0 <= i < rest.len() && max_from(start, rest) == rest[i];
                assert(values[i] == rest[i]);
            } else {
                assert(values[values.len() - 1] == values.last());
            }
        }
    }
}

/// `min_from` is a lower bound that is reached.
pub proof fn lemma_min_from(start: int, values: Seq<i128>)
    ensures
        min_from(start, values) <= start,
        forall|i: int| 0 <= i < values.len() ==> min_from(start, values) <= #[trigger] values[i],
        min_from(start, values) == start || exists|i: int|
            0 <= i < values.len() && min_from(start, values) == #[trigger] values[i],
    decreases values.len(),
{
    if values.len() > 0 {
        let rest = values.drop_last();
        lemma_min_from(start, rest);
        assert forall|i: int| 0 <= i < values.len() implies min_from(start, values)
            <= #[trigger] values[i] by {
            if i < rest.len() {
                assert(rest[i] == values[i]);
            }
        }
        if min_from(start, values) != start {
            if min_from(start, rest) <= values.last() {
                let i = choose|i: int| 0 <= i < rest.len() && min_from(start, rest) == rest[i];
                assert(values[i] == rest[i]);
            } else {
                assert(values[values.len() - 1] == values.last());
            }
        }
    }
}

/// The largest of `start` and the values.
pub fn max_of(start: i128, values: &Vec<i128>) -> (m: i128)
    ensures
        m == max_from(start as int, values@),
{
    let mut m: i128 = start;
    let mut i: usize = 0;
    assert(values@.take(0) =~= Seq::<i128>::empty());
    while i < values.len()
        invariant
            i <= values.len(),
            m == max_from(start as int, values@.take(i as int)),
        decreases values.len() - i,
    {
        assert(values@.take(i + 1).drop_last() =~= values@.take(i as int));
        if values[i] > m {
            m = values[i];
        }
        i += 1;
    }
    assert(values@.take(values.len() as int) =~= values@);
    m
}

/// The smallest of `start` and the values.
pub fn min_of(start: i128, values: &Vec<i128>) -> (m: i128)
    ensures
        m == min_from(start as int, values@),
{
    let mut m: i128 = start;
    let mut i: usize = 0;
    assert(values@.take(0) =~= Seq::<i128>::empty());
    while i < values.len()
        invariant
            i <= values.len(),
            m == min_from(start as int, values@.take(i as int)),
        decreases values.len() - i,
    {
        assert(values@.take(i + 1).drop_last() =~= values@.take(i as int));
        if values[i] < m {
            m = values[i];
        }
        i += 1;
    }
    assert(values@.take(values.len() as int) =~= values@);
    m
}

/// Whether every value of the run is a quantity that a cell can hold.
pub open spec fn within_limit(values: Seq<i128>) -> bool {
    forall|i: int| 0 <= i < values.len() ==> -MEASURE_LIMIT <= #[trigger] values[i] <= MEASURE_LIMIT
}

/// The largest magnitude of a sum of up to 4096 quantities.
pub const SUM_LIMIT: i128 = 75_557_863_725_914_323_419_136_000;

/// The top of an axis for a largest value: a tenth above it.
pub open spec fn padded(m: int) -> int {
    m * 11 / 10
}

/// The top of an axis for a largest value: a tenth above it.
pub fn pad_upper(m: i128) -> (u: i128)
    requires
        i128::MIN <= padded(m as int) <= i128::MAX,
    ensures
        u == padded(m as int),
{
    // A tenth above `m` is `m` and its tenth: no product that could be too large.
    let tenth: i128 = floor_div(m, 10);
    proof {
        let r: int = m as int % 10;
        vstd::arithmetic::div_mod::lemma_fundamental_div_mod(m as int, 10);
        vstd::arithmetic::div_mod::lemma_mod_bound(m as int, 10);
        assert(m * 11 == 10 * (m + tenth) + r);
        vstd::arithmetic::div_mod::lemma_fundamental_div_mod_converse(
            m * 11,
            10,
            m + tenth,
            r,
        );
    }
    m + tenth
}

/// The sum of the values of the run.
pub open spec fn sum_of(values: Seq<i128>) -> int
    decreases values.len(),
{
    if values.len() == 0 {
        0
    } else {
        sum_of(values.drop_last()) + values.last()
    }
}

/// The number of rows that a chart reads: the height of the table, up to a cap.
pub open spec fn sampled(height: nat, cap: nat) -> nat {
    if height < cap {
        height
    } else {
        cap
    }
}

/// The quantities that a chart plots for the first `n` cells of a column.
pub open spec fn plotted_cells(cells: Seq<CellView>, n: nat) -> Seq<i128> {
    Seq::new(n, |i: int| plotted(cells[i]) as i128)
}

/// The quantities that a chart plots for the first `n` rows of column `c`:
/// the quantity of each cell, or zero where the cell is not a number.
pub fn read_plotted(frame: &Frame, c: usize, n: usize) -> (values: Vec<i128>)
    requires
        c < frame@.names.len(),
        n <= frame@.height(),
    ensures
        values@ == plotted_cells(frame@.cells[c as int], n as nat),
        within_limit(values@),
{
    let mut values: Vec<i128> = Vec::new();
    let mut i: usize = 0;
    while i < n
        invariant
            c < frame@.names.len(),
            n <= frame@.height(),
            i <= n,
            values@.len() == i,
            forall|k: int|
                0 <= k < i ==> #[trigger] values@[k] == plotted(frame@.cells[c as int][k])
                    && -MEASURE_LIMIT <= values@[k] <= MEASURE_LIMIT,
        decreases n - i,
    {
        values.push(plotted_value(frame.cell(c, i)));
        i += 1;
    }
    assert(values@ =~= plotted_cells(frame@.cells[c as int], n as nat));
    values
}


/// The quotient of `a` by `b`, at least one, rounded toward the floor. It is
/// no further from zero than `a`.
pub fn bounded_quotient(a: i128, b: i128) -> (q: i128)
    requires
        b >= 1,
    ensures
        q == a as int / b as int,
        a >= 0 ==> 0 <= q <= a,
        a < 0 ==> a <= q < 0,
{
    let q: i128 = floor_div(a, b);
    proof {
        vstd::arithmetic::div_mod::lemma_fundamental_div_mod(a as int, b as int);
        let r = a as int % b as int;
        assert(0 <= r < b) by {
            vstd::arithmetic::div_mod::lemma_mod_bound(a as int, b as int);
        }
        if a >= 0 {
            assert(0 <= q <= a) by (nonlinear_arith)
                requires
                    a as int == b * q + r,
                    0 <= r < b,
                    b >= 1,
                    a >= 0,
            ;
        } else {
            assert(a <= q < 0) by (nonlinear_arith)
                requires
                    a as int == b * q + r,
                    0 <= r < b,
                    b >= 1,
                    a < 0,
            ;
        }
    }
    q
}


/// The remainder of `a` by a positive `b`, from zero up to `b`.
pub fn floor_mod(a: i128, b: i128) -> (r: i128)
    requires
        b > 0,
    ensures
        r == a as int % b as int,
        0 <= r < b,
{
    if a >= 0 {
        proof {
            vstd::arithmetic::div_mod::lemma_mod_bound(a as int, b as int);
        }
        a % b
    } else {
        // For a negative `a`, count up from the value just below zero.
        let n: i128 = -(a + 1);
        let m: i128 = n % b;
        proof {
            let t: int = n as int / b as int;
            vstd::arithmetic::div_mod::lemma_fundamental_div_mod(n as int, b as int);
            vstd::arithmetic::div_mod::lemma_mod_bound(n as int, b as int);
            assert(a as int == (-t - 1) * b + (b - m - 1)) by (nonlinear_arith)
                requires
                    n as int == b * t + m,
                    a as int == -(n + 1),
            ;
            vstd::arithmetic::div_mod::lemma_fundamental_div_mod_converse(
                a as int,
                b as int,
                -t - 1,
                b - m - 1,
            );
        }
        b - 1 - m
    }
}

} // verus!
