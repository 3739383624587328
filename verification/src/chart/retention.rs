//! Retention matrices: one row per cohort, one column per period, each cell
//! shaded by the share of the cohort's first count that the period keeps.

use vstd::prelude::*;
use vstd::string::*;
use crate::chart::{Binding, bound_text, labels_of, read_labels, RenderError, resolve, shade, shade_color, strings_of, strings_view, Surface};
use crate::chart_spec::{ChartConfig, ChartType, LegendPosition};
use crate::frame::{CellView, Frame, FrameView, MEASURE_LIMIT, plotted, plotted_value};
use crate::measure::{bounded_quotient, lemma_max_from, max_from, max_of, plotted_cells, read_plotted, sampled, within_limit};
use crate::sorting::{is_sorted_numbers_of, is_sorted_texts_of, sort_numbers, sort_texts, sorted_numbers, sorted_texts, texts_view};
use crate::styling::{ChartStyle, Rgb};
use crate::text::chars_eq;

verus! {

/// The most rows that a retention matrix reads.
pub const MAX_RETENTION_ROWS: usize = 100;

/// A full share, in thousandths of a percent.
pub const FULL_SHARE: i128 = 100_000;

/// What to draw for a retention matrix: the cohorts from the bottom up, the
/// periods from left to right, and for each cohort and period the share in
/// thousandths of a percent and the colour of the cell. The cell of cohort
/// `c` and period `p` is the square from `(p, c)` to `(p + 1, c + 1)`.
#[derive(Debug)]
pub struct RetentionPlan {
    pub title: String,
    pub x_label: String,
    pub y_label: String,
    pub cohorts: Vec<String>,
    pub periods: Vec<i128>,
    pub shares: Vec<Vec<i128>>,
    pub colors: Vec<Vec<Rgb>>,
    pub max_share: i128,
}

/// The period that a cell numbers: its quantity without the fraction, within
/// the range of a 32-bit number; zero where the cell is not a number.
pub open spec fn period_of(cell: CellView) -> int {
    let m = plotted(cell);
    let whole = if m >= 0 {
        m / 1000
    } else {
        -((-m) / 1000)
    };
    if whole < i32::MIN {
        i32::MIN as int
    } else if whole > i32::MAX {
        i32::MAX as int
    } else {
        whole
    }
}

/// The periods that the first `n` cells of a column number.
pub open spec fn periods_of(cells: Seq<CellView>, n: nat) -> Seq<i128> {
    Seq::new(n, |i: int| period_of(cells[i]) as i128)
}

/// The count that the last of the first `n` rows with this cohort and this
/// period gives; none where no row has both.
pub open spec fn observed(
    cohorts: Seq<Seq<char>>,
    periods: Seq<i128>,
    counts: Seq<i128>,
    n: nat,
    cohort: Seq<char>,
    period: i128,
) -> Option<i128>
    decreases n,
{
    if n == 0 {
        None
    } else if cohorts[n - 1] == cohort && periods[n - 1] == period {
        Some(counts[n - 1])
    } else {
        observed(cohorts, periods, counts, (n - 1) as nat, cohort, period)
    }
}

/// The counts of one cohort, one for each period in the order given.
pub open spec fn cohort_counts(
    cohorts: Seq<Seq<char>>,
    periods: Seq<i128>,
    counts: Seq<i128>,
    cohort: Seq<char>,
    order: Seq<i128>,
) -> Seq<Option<i128>> {
    Seq::new(
        order.len(),
        |p: int| observed(cohorts, periods, counts, counts.len(), cohort, order[p]),
    )
}

/// The place of the first count that a cohort has, or the number of places
/// where it has none.
pub open spec fn first_observed(row: Seq<Option<i128>>) -> int
    decreases row.len(),
{
    if row.len() == 0 {
        0
    } else if row[0] is Some {
        0
    } else {
        1 + first_observed(row.drop_first())
    }
}

/// The baseline of a cohort: its first count, or zero where it has none.
pub open spec fn baseline_of(row: Seq<Option<i128>>) -> int {
    if first_observed(row) < row.len() {
        row[first_observed(row)]->0 as int
    } else {
        0
    }
}

/// The share of the baseline that a count is, in thousandths of a percent,
/// rounded toward the floor; zero where the baseline is zero.
pub open spec fn share_of(count: int, baseline: int) -> int {
    if baseline > 0 {
        count * 100_000 / baseline
    } else if baseline < 0 {
        (-count) * 100_000 / (-baseline)
    } else {
        0
    }
}

/// A count, or zero where there is none.
pub open spec fn count_or_zero(count: Option<i128>) -> int {
    match count {
        Some(v) => v as int,
        None => 0,
    }
}

/// The shares of one cohort: each of its counts as a share of its baseline.
pub open spec fn shares_of(row: Seq<Option<i128>>) -> Seq<i128> {
    Seq::new(row.len(), |p: int| share_of(count_or_zero(row[p]), baseline_of(row)) as i128)
}

/// `first_observed` finds the first count and nothing before it is one.
pub proof fn lemma_first_observed(row: Seq<Option<i128>>)
    ensures
        0 <= first_observed(row) <= row.len(),
        first_observed(row) < row.len() ==> row[first_observed(row)] is Some,
        forall|k: int| 0 <= k < first_observed(row) ==> (#[trigger] row[k]) is None,
    decreases row.len(),
{
    if row.len() > 0 && row[0] is None {
        let rest = row.drop_first();
        lemma_first_observed(rest);
        assert forall|k: int| 0 <= k < first_observed(row) implies (#[trigger] row[k]) is None by {
            if k > 0 {
                assert(row[k] == rest[k - 1]);
            }
        }
        if first_observed(row) < row.len() {
            assert(row[first_observed(row)] == rest[first_observed(rest)]);
        }
    }
}

/// In the period of its baseline a cohort keeps exactly its full share,
/// where the baseline is not zero.
pub proof fn law_baseline_share_is_full(row: Seq<Option<i128>>)
    requires
        baseline_of(row) != 0,
    ensures
        0 <= first_observed(row) < row.len(),
        shares_of(row)[first_observed(row)] == FULL_SHARE,
{
    lemma_first_observed(row);
    let b = baseline_of(row);
    if b > 0 {
        vstd::arithmetic::div_mod::lemma_div_multiples_vanish(100_000, b);
        assert(b * 100_000 == 100_000 * b);
    } else {
        vstd::arithmetic::div_mod::lemma_div_multiples_vanish(100_000, -b);
        assert((-b) * 100_000 == 100_000 * (-b));
    }
}

/// The largest share of each cohort, and at least zero.
pub open spec fn row_tops(shares: Seq<Vec<i128>>) -> Seq<i128> {
    Seq::new(shares.len(), |c: int| max_from(0, shares[c]@) as i128)
}

/// The colours of the cells of one cohort: each cell is shaded by its share
/// as a part of the largest share, green eight and blue six tenths of red.
pub open spec fn row_colors(shares: Seq<i128>, top: int) -> Seq<Rgb> {
    Seq::new(shares.len(), |p: int| shade(shares[p] * 1000 / top, 8, 6))
}

/// Why a retention matrix cannot be laid out: the three bindings are needed
/// in the order cohort date, period number, users; then the three columns
/// are looked up in the same order.
pub open spec fn retention_error(table: FrameView, config: &ChartConfig) -> Option<RenderError> {
    let t = ChartType::Retention;
    if config.cohort_date is None {
        Some(RenderError::MissingField { chart_type: t, field: Binding::CohortDate })
    } else if config.period_number is None {
        Some(RenderError::MissingField { chart_type: t, field: Binding::PeriodNumber })
    } else if config.users is None {
        Some(RenderError::MissingField { chart_type: t, field: Binding::Users })
    } else if !table.has(config.cohort_date->0@) {
        Some(RenderError::ColumnNotFound { column: Binding::CohortDate })
    } else if !table.has(config.period_number->0@) {
        Some(RenderError::ColumnNotFound { column: Binding::PeriodNumber })
    } else if !table.has(config.users->0@) {
        Some(RenderError::ColumnNotFound { column: Binding::Users })
    } else {
        None
    }
}

/// The rows that a retention matrix reads.
pub open spec fn retention_rows(table: FrameView) -> nat {
    sampled(table.height(), MAX_RETENTION_ROWS as nat)
}

/// Whether `plan` is the retention matrix of the rows read: the cohorts are
/// the different cohort labels in lexicographic order, the periods the
/// different period numbers in ascending order; the shares of a cohort are
/// its counts as shares of its baseline, a missing count as zero; the largest
/// share counts as at least zero; and every cell is shaded by its share as a
/// part of the largest, where the largest is above zero.
pub open spec fn is_retention_plan(
    plan: &RetentionPlan,
    table: FrameView,
    config: &ChartConfig,
    title: Seq<char>,
) -> bool {
    let n = retention_rows(table);
    let cohorts = labels_of(table.column(bound_text(config.cohort_date)), n);
    let periods = periods_of(table.column(bound_text(config.period_number)), n);
    let counts = plotted_cells(table.column(bound_text(config.users)), n);
    &&& plan.title@ == title
    &&& plan.x_label@ == "Period"@
    &&& plan.y_label@ == "Cohort"@
    &&& is_sorted_texts_of(strings_view(plan.cohorts@), cohorts)
    &&& is_sorted_numbers_of(plan.periods@, periods)
    &&& plan.shares@.len() == plan.cohorts@.len()
    &&& plan.max_share == max_from(0, row_tops(plan.shares@))
    &&& plan.max_share > 0 ==> plan.colors@.len() == plan.cohorts@.len()
    &&& forall|c: int|
        0 <= c < plan.cohorts@.len() ==> (#[trigger] plan.shares@[c])@ == shares_of(
            cohort_counts(cohorts, periods, counts, plan.cohorts@[c]@, plan.periods@),
        )
    &&& plan.max_share > 0 ==> forall|c: int|
        0 <= c < plan.cohorts@.len() ==> (#[trigger] plan.colors@[c])@ == row_colors(
            plan.shares@[c]@,
            plan.max_share as int,
        )
}

/// In the retention matrix of a table, every cohort whose baseline is not
/// zero keeps exactly its full share in the period of its baseline.
pub proof fn law_cohort_is_full_at_its_baseline(
    plan: &RetentionPlan,
    table: FrameView,
    config: &ChartConfig,
    title: Seq<char>,
    cohort: int,
)
    requires
        is_retention_plan(plan, table, config, title),
        0 <= cohort < plan.cohorts@.len(),
        baseline_of(
            cohort_counts(
                labels_of(table.column(bound_text(config.cohort_date)), retention_rows(table)),
                periods_of(table.column(bound_text(config.period_number)), retention_rows(table)),
                plotted_cells(table.column(bound_text(config.users)), retention_rows(table)),
                plan.cohorts@[cohort]@,
                plan.periods@,
            ),
        ) != 0,
    ensures
        ({
            let counts = cohort_counts(
                labels_of(table.column(bound_text(config.cohort_date)), retention_rows(table)),
                periods_of(table.column(bound_text(config.period_number)), retention_rows(table)),
                plotted_cells(table.column(bound_text(config.users)), retention_rows(table)),
                plan.cohorts@[cohort]@,
                plan.periods@,
            );
            0 <= first_observed(counts) < plan.periods@.len() && plan.shares@[cohort]@[first_observed(
                counts,
            )] == FULL_SHARE
        }),
{
    let counts = cohort_counts(
        labels_of(table.column(bound_text(config.cohort_date)), retention_rows(table)),
        periods_of(table.column(bound_text(config.period_number)), retention_rows(table)),
        plotted_cells(table.column(bound_text(config.users)), retention_rows(table)),
        plan.cohorts@[cohort]@,
        plan.periods@,
    );
    law_baseline_share_is_full(counts);
    assert(plan.shares@[cohort]@ == shares_of(counts));
}

fn read_periods(frame: &Frame, c: usize, n: usize) -> (periods: Vec<i128>)
    requires
        c < frame@.names.len(),
        n <= frame@.height(),
    ensures
        periods@ == periods_of(frame@.cells[c as int], n as nat),
{
    let mut periods: Vec<i128> = Vec::new();
    let mut i: usize = 0;
    while i < n
        invariant
            c < frame@.names.len(),
            n <= frame@.height(),
            i <= n,
            periods@.len() == i,
            forall|k: int|
                0 <= k < i ==> #[trigger] periods@[k] == period_of(frame@.cells[c as int][k]),
        decreases n - i,
    {
        let m: i128 = plotted_value(frame.cell(c, i));
        // Division of machine integers drops the fraction, toward zero.
        let whole: i128 = m / 1000;
        let period: i128 = if whole < -2147483648 {
            -2147483648
        } else if whole > 2147483647 {
            2147483647
        } else {
            whole
        };
        periods.push(period);
        i += 1;
    }
    assert(periods@ =~= periods_of(frame@.cells[c as int], n as nat));
    periods
}

fn lookup_observed(
    cohorts: &Vec<Vec<char>>,
    periods: &Vec<i128>,
    counts: &Vec<i128>,
    cohort: &Vec<char>,
    period: i128,
) -> (v: Option<i128>)
    requires
        cohorts@.len() == counts@.len(),
        periods@.len() == counts@.len(),
        within_limit(counts@),
    ensures
        v == observed(texts_view(cohorts@), periods@, counts@, counts@.len(), cohort@, period),
        v matches Some(m) ==> -MEASURE_LIMIT <= m <= MEASURE_LIMIT,
{
    let ghost cs = texts_view(cohorts@);
    let mut n: usize = counts.len();
    while n > 0
        invariant
            n <= counts@.len(),
            cohorts@.len() == counts@.len(),
            periods@.len() == counts@.len(),
            within_limit(counts@),
            cs == texts_view(cohorts@),
            observed(cs, periods@, counts@, counts@.len(), cohort@, period) == observed(
                cs,
                periods@,
                counts@,
                n as nat,
                cohort@,
                period,
            ),
        decreases n,
    {
        if chars_eq(&cohorts[n - 1], cohort) && periods[n - 1] == period {
            return Some(counts[n - 1]);
        }
        n -= 1;
    }
    None
}

fn read_cohort(
    cohorts: &Vec<Vec<char>>,
    periods: &Vec<i128>,
    counts: &Vec<i128>,
    cohort: &Vec<char>,
    order: &Vec<i128>,
) -> (row: Vec<Option<i128>>)
    requires
        cohorts@.len() == counts@.len(),
        periods@.len() == counts@.len(),
        within_limit(counts@),
    ensures
        row@ == cohort_counts(texts_view(cohorts@), periods@, counts@, cohort@, order@),
        forall|p: int|
            0 <= p < row@.len() ==> ((#[trigger] row@[p]) matches Some(m) ==> -MEASURE_LIMIT <= m
                <= MEASURE_LIMIT),
{
    let mut row: Vec<Option<i128>> = Vec::new();
    let mut p: usize = 0;
    while p < order.len()
        invariant
            cohorts@.len() == counts@.len(),
            periods@.len() == counts@.len(),
            within_limit(counts@),
            p <= order.len(),
            row@.len() == p,
            forall|k: int|
                0 <= k < p ==> #[trigger] row@[k] == observed(
                    texts_view(cohorts@),
                    periods@,
                    counts@,
                    counts@.len(),
                    cohort@,
                    order@[k],
                ),
            forall|k: int|
                0 <= k < p ==> ((#[trigger] row@[k]) matches Some(m) ==> -MEASURE_LIMIT <= m
                    <= MEASURE_LIMIT),
        decreases order.len() - p,
    {
        row.push(lookup_observed(cohorts, periods, counts, cohort, order[p]));
        p += 1;
    }
    assert(row@ =~= cohort_counts(texts_view(cohorts@), periods@, counts@, cohort@, order@));
    row
}

fn find_baseline(row: &Vec<Option<i128>>) -> (b: i128)
    requires
        forall|p: int|
            0 <= p < row@.len() ==> ((#[trigger] row@[p]) matches Some(m) ==> -MEASURE_LIMIT <= m
                <= MEASURE_LIMIT),
    ensures
        b == baseline_of(row@),
        -MEASURE_LIMIT <= b <= MEASURE_LIMIT,
{
    proof {
        lemma_first_observed(row@);
    }
    let mut p: usize = 0;
    while p < row.len()
        invariant
            p <= row.len(),
            forall|k: int| 0 <= k < p ==> (#[trigger] row@[k]) is None,
            0 <= first_observed(row@) <= row@.len(),
            first_observed(row@) < row@.len() ==> row@[first_observed(row@)] is Some,
            forall|k: int| 0 <= k < first_observed(row@) ==> (#[trigger] row@[k]) is None,
            forall|k: int|
                0 <= k < row@.len() ==> ((#[trigger] row@[k]) matches Some(m) ==> -MEASURE_LIMIT
                    <= m <= MEASURE_LIMIT),
        decreases row.len() - p,
    {
        if let Some(v) = row[p] {
            assert(first_observed(row@) == p) by {
                if first_observed(row@) < p {
                    assert(row@[first_observed(row@)] is None);
                }
                if first_observed(row@) > p {
                    assert(row@[p as int] is None);
                }
            }
            return v;
        }
        p += 1;
    }
    assert(first_observed(row@) == row@.len()) by {
        if first_observed(row@) < row@.len() {
            assert(row@[first_observed(row@)] is None);
        }
    }
    0
}

/// The largest magnitude of a share.
pub const SHARE_LIMIT: i128 = 1_844_674_407_370_955_161_600_000_000;

fn share(count: i128, baseline: i128) -> (s: i128)
    requires
        -MEASURE_LIMIT <= count <= MEASURE_LIMIT,
        -MEASURE_LIMIT <= baseline <= MEASURE_LIMIT,
    ensures
        s == share_of(count as int, baseline as int),
        -SHARE_LIMIT <= s <= SHARE_LIMIT,
{
    if baseline > 0 {
        bounded_quotient(count * 100_000, baseline)
    } else if baseline < 0 {
        bounded_quotient((-count) * 100_000, -baseline)
    } else {
        0
    }
}

fn build_shares(row: &Vec<Option<i128>>) -> (shares: Vec<i128>)
    requires
        forall|p: int|
            0 <= p < row@.len() ==> ((#[trigger] row@[p]) matches Some(m) ==> -MEASURE_LIMIT <= m
                <= MEASURE_LIMIT),
    ensures
        shares@ == shares_of(row@),
        forall|p: int| 0 <= p < shares@.len() ==> -SHARE_LIMIT <= #[trigger] shares@[p] <= SHARE_LIMIT,
{
    let baseline: i128 = find_baseline(row);
    let mut shares: Vec<i128> = Vec::new();
    let mut p: usize = 0;
    while p < row.len()
        invariant
            p <= row.len(),
            baseline == baseline_of(row@),
            -MEASURE_LIMIT <= baseline <= MEASURE_LIMIT,
            shares@.len() == p,
            forall|k: int| 0 <= k < p ==> #[trigger] shares@[k] == shares_of(row@)[k],
            forall|k: int| 0 <= k < p ==> -SHARE_LIMIT <= #[trigger] shares@[k] <= SHARE_LIMIT,
            forall|k: int|
                0 <= k < row@.len() ==> ((#[trigger] row@[k]) matches Some(m) ==> -MEASURE_LIMIT
                    <= m <= MEASURE_LIMIT),
        decreases row.len() - p,
    {
        let count: i128 = match row[p] {
            Some(v) => v,
            None => 0,
        };
        shares.push(share(count, baseline));
        p += 1;
    }
    assert(shares@ =~= shares_of(row@));
    shares
}

fn build_colors(shares: &Vec<i128>, top: i128) -> (colors: Vec<Rgb>)
    requires
        top >= 1,
        forall|p: int| 0 <= p < shares@.len() ==> -SHARE_LIMIT <= #[trigger] shares@[p] <= SHARE_LIMIT,
    ensures
        colors@ == row_colors(shares@, top as int),
{
    let mut colors: Vec<Rgb> = Vec::new();
    let mut p: usize = 0;
    while p < shares.len()
        invariant
            top >= 1,
            p <= shares.len(),
            colors@.len() == p,
            forall|k: int| 0 <= k < p ==> #[trigger] colors@[k] == row_colors(shares@, top as int)[k],
            forall|k: int|
                0 <= k < shares@.len() ==> -SHARE_LIMIT <= #[trigger] shares@[k] <= SHARE_LIMIT,
        decreases shares.len() - p,
    {
        let s: i128 = shares[p];
        assert(-SHARE_LIMIT <= s <= SHARE_LIMIT);
        let intensity: i128 = bounded_quotient(s * 1000, top);
        colors.push(shade_color(intensity, 8, 6));
        p += 1;
    }
    assert(colors@ =~= row_colors(shares@, top as int));
    colors
}

/// The shares of the cohort at a place among the cohorts in lexicographic
/// order: one share for each period in ascending order.
pub open spec fn cohort_shares(table: FrameView, config: &ChartConfig, cohort: int) -> Seq<i128> {
    let n = retention_rows(table);
    let cohorts = labels_of(table.column(bound_text(config.cohort_date)), n);
    let periods = periods_of(table.column(bound_text(config.period_number)), n);
    let counts = plotted_cells(table.column(bound_text(config.users)), n);
    shares_of(
        cohort_counts(
            cohorts,
            periods,
            counts,
            sorted_texts(cohorts)[cohort],
            sorted_numbers(periods),
        ),
    )
}

/// The largest share among the first `n` cohorts, and zero at least.
pub open spec fn largest_share(table: FrameView, config: &ChartConfig, n: nat) -> int
    decreases n,
{
    if n == 0 {
        0
    } else if largest_share(table, config, (n - 1) as nat) >= max_from(
        0,
        cohort_shares(table, config, n - 1),
    ) {
        largest_share(table, config, (n - 1) as nat)
    } else {
        max_from(0, cohort_shares(table, config, n - 1))
    }
}

/// The largest share of the matrix, and zero at least.
pub open spec fn matrix_top(table: FrameView, config: &ChartConfig) -> int {
    largest_share(
        table,
        config,
        sorted_texts(
            labels_of(table.column(bound_text(config.cohort_date)), retention_rows(table)),
        ).len(),
    )
}

/// The largest of the first `n` tops, zero at least, is the largest share
/// among the first `n` cohorts where each top is the largest share of its
/// cohort.
proof fn lemma_largest_share(table: FrameView, config: &ChartConfig, tops: Seq<i128>, n: nat)
    requires
        n <= tops.len(),
        forall|c: int|
            0 <= c < n ==> #[trigger] tops[c] == max_from(0, cohort_shares(table, config, c)),
    ensures
        max_from(0, tops.take(n as int)) == largest_share(table, config, n),
    decreases n,
{
    if n > 0 {
        lemma_largest_share(table, config, tops, (n - 1) as nat);
        assert(tops.take(n as int).drop_last() =~= tops.take(n - 1));
        assert(tops.take(n as int).last() == tops[n - 1]);
    }
}

/// What `render` owes for a table and a declaration: the failure, nothing to
/// draw, or the plan of the chart.
pub open spec fn renders(
    r: Result<Option<RetentionPlan>, RenderError>,
    table: FrameView,
    config: &ChartConfig,
    surface: Surface,
    title: Seq<char>,
    style: &ChartStyle,
) -> bool {
    match r {
        Err(e) => retention_error(table, config) == Some(e),
        Ok(None) => retention_error(table, config) is None && (table.height() == 0
            || matrix_top(table, config) == 0),
        Ok(Some(plan)) => retention_error(table, config) is None && table.height() > 0
            && matrix_top(table, config) > 0 && plan.max_share == matrix_top(table, config)
            && is_retention_plan(&plan, table, config, title),
    }
}

/// Lays out a retention matrix from the first hundred rows. Every row names
/// a cohort, numbers a period and gives a count; a later row replaces an
/// earlier one of the same cohort and period. The baseline of a cohort is
/// its count in its first period; its share in a period is its count there
/// as a part of the baseline. A table without rows, or without a share above
/// zero, gives nothing to draw.
pub fn render(
    frame: &Frame,
    config: &ChartConfig,
    surface: &Surface,
    title: &str,
    legend_position: &LegendPosition,
    style: &ChartStyle,
) -> (r: Result<Option<RetentionPlan>, RenderError>)
    ensures
        renders(r, frame@, config, *surface, title@, style),
{
    let t: ChartType = ChartType::Retention;
    if config.cohort_date.is_none() {
        return Err(RenderError::MissingField { chart_type: t, field: Binding::CohortDate });
    }
    if config.period_number.is_none() {
        return Err(RenderError::MissingField { chart_type: t, field: Binding::PeriodNumber });
    }
    if config.users.is_none() {
        return Err(RenderError::MissingField { chart_type: t, field: Binding::Users });
    }
    let cohort_column: usize = match resolve(frame, &config.cohort_date, t, Binding::CohortDate) {
        Ok(c) => c,
        Err(e) => {
            return Err(e);
        },
    };
    let period_column: usize = match resolve(frame, &config.period_number, t, Binding::PeriodNumber) {
        Ok(c) => c,
        Err(e) => {
            return Err(e);
        },
    };
    let users_column: usize = match resolve(frame, &config.users, t, Binding::Users) {
        Ok(c) => c,
        Err(e) => {
            return Err(e);
        },
    };
    let height: usize = frame.height();
    let n: usize = if height < MAX_RETENTION_ROWS {
        height
    } else {
        MAX_RETENTION_ROWS
    };
    if n == 0 {
        return Ok(None);
    }
    let labels: Vec<Vec<char>> = read_labels(frame, cohort_column, n);
    let numbers: Vec<i128> = read_periods(frame, period_column, n);
    let counts: Vec<i128> = read_plotted(frame, users_column, n);
    let cohorts: Vec<Vec<char>> = sort_texts(&labels);
    let periods: Vec<i128> = sort_numbers(&numbers);
    let mut shares: Vec<Vec<i128>> = Vec::new();
    let mut tops: Vec<i128> = Vec::new();
    let mut c: usize = 0;
    while c < cohorts.len()
        invariant
            labels@.len() == counts@.len(),
            numbers@.len() == counts@.len(),
            within_limit(counts@),
            c <= cohorts.len(),
            shares@.len() == c,
            tops@.len() == c,
            forall|k: int|
                0 <= k < c ==> (#[trigger] shares@[k])@ == shares_of(
                    cohort_counts(
                        texts_view(labels@),
                        numbers@,
                        counts@,
                        cohorts@[k]@,
                        periods@,
                    ),
                ),
            forall|k: int, p: int|
                0 <= k < c && 0 <= p < shares@[k]@.len() ==> -SHARE_LIMIT <= #[trigger] shares@[k]@[p]
                    <= SHARE_LIMIT,
            forall|k: int| 0 <= k < c ==> #[trigger] tops@[k] == row_tops(shares@)[k],
        decreases cohorts.len() - c,
    {
        let row: Vec<Option<i128>> = read_cohort(&labels, &numbers, &counts, &cohorts[c], &periods);
        let line: Vec<i128> = build_shares(&row);
        let top: i128 = max_of(0, &line);
        let ghost before = shares@;
        shares.push(line);
        tops.push(top);
        assert forall|k: int| 0 <= k < c + 1 implies #[trigger] tops@[k] == row_tops(shares@)[k] by {
            if k < c {
                assert(shares@[k] == before[k]);
                assert(row_tops(before)[k] == row_tops(shares@)[k]);
            }
        }
        c += 1;
    }
    assert(tops@ =~= row_tops(shares@));
    let max_share: i128 = max_of(0, &tops);
    proof {
        lemma_max_from(0, tops@);
        assert forall|k: int| 0 <= k < tops@.len() implies #[trigger] tops@[k] == max_from(
            0,
            cohort_shares(frame@, config, k),
        ) by {
            assert(tops@[k] == row_tops(shares@)[k]);
            assert(texts_view(cohorts@)[k] == cohorts@[k]@);
            assert(shares@[k]@ == cohort_shares(frame@, config, k));
            lemma_max_from(0, shares@[k]@);
        }
        lemma_largest_share(frame@, config, tops@, tops@.len());
        assert(tops@.take(tops@.len() as int) =~= tops@);
    }
    let cohort_names: Vec<String> = strings_of(&cohorts);
    let mut colors: Vec<Vec<Rgb>> = Vec::new();
    if max_share == 0 {
        return Ok(None);
    }
    let mut k: usize = 0;
    while k < shares.len()
        invariant
            max_share >= 1,
            k <= shares.len(),
            colors@.len() == k,
            forall|j: int, p: int|
                0 <= j < shares@.len() && 0 <= p < shares@[j]@.len() ==> -SHARE_LIMIT
                    <= #[trigger] shares@[j]@[p] <= SHARE_LIMIT,
            forall|j: int|
                0 <= j < k ==> (#[trigger] colors@[j])@ == row_colors(
                    shares@[j]@,
                    max_share as int,
                ),
        decreases shares.len() - k,
    {
        colors.push(build_colors(&shares[k], max_share));
        k += 1;
    }
    let plan: RetentionPlan = RetentionPlan {
        title: String::from_str(title),
        x_label: String::from_str("Period"),
        y_label: String::from_str("Cohort"),
        cohorts: cohort_names,
        periods,
        shares,
        colors,
        max_share,
    };
    assert(is_retention_plan(&plan, frame@, config, title@));
    Ok(Some(plan))
}

} // verus!
