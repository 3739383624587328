//! Stacked bar charts: one bar per category, the groups of a category
//! stacked on each other in the lexicographic order of their names.

use vstd::prelude::*;
use vstd::string::*;
use crate::chart::{bound_string, bound_text, cycle_color, labels_of, read_labels, resolve, resolved, strings_of, strings_view, Binding, RenderError, Surface};
use crate::chart_spec::{ChartConfig, ChartType, LegendPosition};
use crate::frame::{Frame, FrameView, MEASURE_LIMIT};
use crate::measure::{SUM_LIMIT, lemma_max_from, max_from, max_of, pad_upper, padded, plotted_cells, read_plotted, sampled, sum_of, within_limit};
use crate::sorting::{distinct_of, distinct_texts, is_sorted_texts_of, lemma_distinct_of, sort_texts, sorted_texts, texts_view};
use crate::styling::{ChartStyle, Rgb};
use crate::text::chars_eq;

verus! {

/// The most rows that a stacked bar chart reads.
pub const MAX_STACKED_ROWS: usize = 50;

/// The span of one group within the bar of a category, in thousandths.
#[derive(Debug, Clone, Copy, PartialEq, Eq, Structural)]
pub struct Interval {
    pub start: i128,
    pub end: i128,
}

/// What to draw for a stacked bar chart: for each category a bar made of one
/// layer per group, the groups in lexicographic order; layer `g` of every bar
/// has colour `g`. A chart without an x column has one bar and no category.
#[derive(Debug)]
pub struct StackedBarPlan {
    pub title: String,
    pub x_label: String,
    pub y_label: String,
    pub categories: Vec<String>,
    pub groups: Vec<String>,
    pub stacks: Vec<Vec<Interval>>,
    pub colors: Vec<Rgb>,
    pub max_height: i128,
    pub y_upper: i128,
}

/// Whether `intervals` stacks `values`: the first starts at zero, each starts
/// where the one before it ends, and each is as long as its value.
pub open spec fn is_stack_of(intervals: Seq<Interval>, values: Seq<i128>) -> bool {
    &&& intervals.len() == values.len()
    &&& forall|k: int|
        0 <= k < intervals.len() ==> (#[trigger] intervals[k]).start == (if k == 0 {
            0
        } else {
            intervals[k - 1].end as int
        }) && intervals[k].end == intervals[k].start + values[k]
}

/// The end of the last interval of a stack is the sum of the stacked values.
pub proof fn law_stack_ends_at_sum(intervals: Seq<Interval>, values: Seq<i128>)
    requires
        is_stack_of(intervals, values),
        values.len() > 0,
    ensures
        intervals.last().end == sum_of(values),
    decreases values.len(),
{
    if values.len() == 1 {
        assert(values.drop_last().len() == 0);
        assert(sum_of(values.drop_last()) == 0);
        assert(intervals[0].start == 0);
    } else {
        let less = intervals.drop_last();
        let fewer = values.drop_last();
        assert(is_stack_of(less, fewer)) by {
            assert forall|k: int| 0 <= k < less.len() implies (#[trigger] less[k]).start == (if k
                == 0 {
                0
            } else {
                less[k - 1].end as int
            }) && less[k].end == less[k].start + fewer[k] by {
                assert(less[k] == intervals[k]);
                if k > 0 {
                    assert(less[k - 1] == intervals[k - 1]);
                }
            }
        }
        law_stack_ends_at_sum(less, fewer);
        let last = intervals.len() - 1;
        assert(intervals[last].start == intervals[last - 1].end);
        assert(less.last() == intervals[last - 1]);
    }
}

/// Whether every running sum of the values, from the first value up to any
/// later one, is a number that an interval can hold.
pub open spec fn sums_fit(values: Seq<i128>) -> bool {
    forall|k: int|
        0 <= k <= values.len() ==> i128::MIN <= #[trigger] sum_of(values.take(k)) <= i128::MAX
}

/// The running sum grows by the value that it takes in.
pub proof fn lemma_sum_step(values: Seq<i128>, k: int)
    requires
        0 <= k < values.len(),
    ensures
        sum_of(values.take(k + 1)) == sum_of(values.take(k)) + values[k],
{
    assert(values.take(k + 1).drop_last() =~= values.take(k));
    assert(values.take(k + 1).last() == values[k]);
}

/// A sum of quantities that a cell can hold is at most as many times the
/// largest such quantity as there are values, on either side of zero.
pub proof fn lemma_sum_bound(values: Seq<i128>)
    requires
        within_limit(values),
    ensures
        -18_446_744_073_709_551_616_000 * values.len() <= sum_of(values)
            <= 18_446_744_073_709_551_616_000 * values.len(),
    decreases values.len(),
{
    if values.len() > 0 {
        let fewer = values.drop_last();
        assert forall|i: int| 0 <= i < fewer.len() implies -MEASURE_LIMIT <= #[trigger] fewer[i]
            <= MEASURE_LIMIT by {
            assert(fewer[i] == values[i]);
        }
        lemma_sum_bound(fewer);
        assert(-MEASURE_LIMIT <= values[values.len() - 1] <= MEASURE_LIMIT);
    }
}

/// Up to 4096 quantities that a cell can hold have running sums within the
/// limit of a sum, so they can be stacked.
pub proof fn lemma_sums_fit(values: Seq<i128>)
    requires
        within_limit(values),
        values.len() <= 4096,
    ensures
        sums_fit(values),
        forall|k: int|
            0 <= k <= values.len() ==> -SUM_LIMIT <= #[trigger] sum_of(values.take(k))
                <= SUM_LIMIT,
{
    assert forall|k: int| 0 <= k <= values.len() implies -SUM_LIMIT <= #[trigger] sum_of(
        values.take(k),
    ) <= SUM_LIMIT by {
        let head = values.take(k);
        assert forall|i: int| 0 <= i < head.len() implies -MEASURE_LIMIT <= #[trigger] head[i]
            <= MEASURE_LIMIT by {
            assert(head[i] == values[i]);
        }
        lemma_sum_bound(head);
    }
}

/// Stacks the values: each interval starts where the one before it ends and
/// is as long as its value, so it ends at the sum of the values up to its own.
pub fn stack_intervals(values: &Vec<i128>) -> (intervals: Vec<Interval>)
    requires
        sums_fit(values@),
    ensures
        is_stack_of(intervals@, values@),
        forall|k: int|
            0 <= k < intervals@.len() ==> (#[trigger] intervals@[k]).end == sum_of(
                values@.take(k + 1),
            ),
{
    let mut intervals: Vec<Interval> = Vec::new();
    let mut running: i128 = 0;
    let mut k: usize = 0;
    proof {
        assert(values@.take(0).len() == 0);
    }
    while k < values.len()
        invariant
            sums_fit(values@),
            k <= values.len(),
            intervals@.len() == k,
            running == sum_of(values@.take(k as int)),
            running == (if k == 0 {
                0
            } else {
                intervals@[k - 1].end as int
            }),
            forall|j: int|
                0 <= j < k ==> (#[trigger] intervals@[j]).start == (if j == 0 {
                    0
                } else {
                    intervals@[j - 1].end as int
                }) && intervals@[j].end == intervals@[j].start + values@[j],
            forall|j: int|
                0 <= j < k ==> (#[trigger] intervals@[j]).end == sum_of(values@.take(j + 1)),
        decreases values.len() - k,
    {
        let value: i128 = values[k];
        proof {
            lemma_sum_step(values@, k as int);
            assert(i128::MIN <= sum_of(values@.take(k + 1)) <= i128::MAX);
        }
        let end: i128 = running + value;
        intervals.push(Interval { start: running, end });
        running = end;
        k += 1;
    }
    intervals
}

/// The value that the last of the first `n` rows with this category and this
/// group gives; zero where no row has both.
pub open spec fn last_value(
    categories: Seq<Seq<char>>,
    groups: Seq<Seq<char>>,
    values: Seq<i128>,
    n: nat,
    category: Seq<char>,
    group: Seq<char>,
) -> i128
    decreases n,
{
    if n == 0 {
        0
    } else if categories[n - 1] == category && groups[n - 1] == group {
        values[n - 1]
    } else {
        last_value(categories, groups, values, (n - 1) as nat, category, group)
    }
}

/// The value that the last row with this category and this group gives.
pub fn lookup_last(
    categories: &Vec<Vec<char>>,
    groups: &Vec<Vec<char>>,
    values: &Vec<i128>,
    category: &Vec<char>,
    group: &Vec<char>,
) -> (v: i128)
    requires
        categories@.len() == values@.len(),
        groups@.len() == values@.len(),
    ensures
        v == last_value(
            texts_view(categories@),
            texts_view(groups@),
            values@,
            values@.len(),
            category@,
            group@,
        ),
        within_limit(values@) ==> -MEASURE_LIMIT <= v <= MEASURE_LIMIT,
{
    let ghost cs = texts_view(categories@);
    let ghost gs = texts_view(groups@);
    let mut n: usize = values.len();
    while n > 0
        invariant
            n <= values@.len(),
            categories@.len() == values@.len(),
            groups@.len() == values@.len(),
            cs == texts_view(categories@),
            gs == texts_view(groups@),
            last_value(cs, gs, values@, values@.len(), category@, group@) == last_value(
                cs,
                gs,
                values@,
                n as nat,
                category@,
                group@,
            ),
        decreases n,
    {
        if chars_eq(&categories[n - 1], category) && chars_eq(&groups[n - 1], group) {
            return values[n - 1];
        }
        n -= 1;
    }
    0
}

/// The values of one category, one for each group in the order given.
pub open spec fn category_values(
    categories: Seq<Seq<char>>,
    groups: Seq<Seq<char>>,
    values: Seq<i128>,
    category: Seq<char>,
    order: Seq<Seq<char>>,
) -> Seq<i128> {
    Seq::new(
        order.len(),
        |g: int| last_value(categories, groups, values, values.len(), category, order[g]),
    )
}

fn read_category(
    categories: &Vec<Vec<char>>,
    groups: &Vec<Vec<char>>,
    values: &Vec<i128>,
    category: &Vec<char>,
    order: &Vec<Vec<char>>,
) -> (r: Vec<i128>)
    requires
        categories@.len() == values@.len(),
        groups@.len() == values@.len(),
        within_limit(values@),
    ensures
        r@ == category_values(
            texts_view(categories@),
            texts_view(groups@),
            values@,
            category@,
            texts_view(order@),
        ),
        within_limit(r@),
{
    let mut r: Vec<i128> = Vec::new();
    let mut g: usize = 0;
    while g < order.len()
        invariant
            categories@.len() == values@.len(),
            groups@.len() == values@.len(),
            within_limit(values@),
            g <= order.len(),
            r@.len() == g,
            within_limit(r@),
            forall|k: int|
                0 <= k < g ==> #[trigger] r@[k] == last_value(
                    texts_view(categories@),
                    texts_view(groups@),
                    values@,
                    values@.len(),
                    category@,
                    order@[k]@,
                ),
        decreases order.len() - g,
    {
        r.push(lookup_last(categories, groups, values, category, &order[g]));
        g += 1;
    }
    assert(r@ =~= category_values(
        texts_view(categories@),
        texts_view(groups@),
        values@,
        category@,
        texts_view(order@),
    ));
    r
}

/// The colours of the layers: layer `g` has colour `g` of the palette's cycle.
pub open spec fn layer_colors(palette: Seq<Rgb>, layers: nat) -> Seq<Rgb> {
    Seq::new(layers, |g: int| cycle_color(palette, g))
}

fn pick_colors(style: &ChartStyle, layers: usize) -> (colors: Vec<Rgb>)
    ensures
        colors@ == layer_colors(style.colors.primary@, layers as nat),
{
    let mut colors: Vec<Rgb> = Vec::new();
    let mut g: usize = 0;
    while g < layers
        invariant
            g <= layers,
            colors@.len() == g,
            forall|k: int|
                0 <= k < g ==> #[trigger] colors@[k] == cycle_color(style.colors.primary@, k),
        decreases layers - g,
    {
        colors.push(style.get_primary_color(g));
        g += 1;
    }
    assert(colors@ =~= layer_colors(style.colors.primary@, layers as nat));
    colors
}

/// Whether the table has the x column that the declaration binds.
pub open spec fn has_x_column(table: FrameView, config: &ChartConfig) -> bool {
    config.x is Some && table.has(config.x->0@)
}

/// Why a stacked bar chart cannot be laid out. The group binding is needed
/// first, then the x binding. With the x column in the table, the y column is
/// looked up and then the group column; without it, the group column and
/// then the value column.
pub open spec fn stacked_error(table: FrameView, config: &ChartConfig) -> Option<RenderError> {
    let t = ChartType::BarStacked;
    if config.group_by is None {
        Some(RenderError::MissingField { chart_type: t, field: Binding::GroupBy })
    } else if config.x is None {
        Some(RenderError::MissingField { chart_type: t, field: Binding::X })
    } else if has_x_column(table, config) {
        if resolved(table, config.y, t, Binding::Y) is Err {
            Some(resolved(table, config.y, t, Binding::Y)->Err_0)
        } else if resolved(table, config.group_by, t, Binding::GroupBy) is Err {
            Some(resolved(table, config.group_by, t, Binding::GroupBy)->Err_0)
        } else {
            None
        }
    } else {
        if resolved(table, config.group_by, t, Binding::GroupBy) is Err {
            Some(resolved(table, config.group_by, t, Binding::GroupBy)->Err_0)
        } else if resolved(table, config.y, t, Binding::Value) is Err {
            Some(resolved(table, config.y, t, Binding::Value)->Err_0)
        } else {
            None
        }
    }
}

/// The rows that a stacked bar chart reads.
pub open spec fn stacked_rows(table: FrameView) -> nat {
    sampled(table.height(), MAX_STACKED_ROWS as nat)
}

/// The category label of each row read; one empty label per row where the
/// table has no x column, so that all rows fall into one bar.
pub open spec fn category_labels(table: FrameView, config: &ChartConfig) -> Seq<Seq<char>> {
    if has_x_column(table, config) {
        labels_of(table.column(config.x->0@), stacked_rows(table))
    } else {
        Seq::new(stacked_rows(table), |i: int| Seq::<char>::empty())
    }
}

/// The group label of each row read.
pub open spec fn group_labels(table: FrameView, config: &ChartConfig) -> Seq<Seq<char>> {
    labels_of(table.column(bound_text(config.group_by)), stacked_rows(table))
}

/// The quantity of each row read.
pub open spec fn stacked_values(table: FrameView, config: &ChartConfig) -> Seq<i128> {
    plotted_cells(table.column(bound_text(config.y)), stacked_rows(table))
}

/// The height of a bar: the sum of the values of its category, one for each
/// group.
pub open spec fn bar_height(table: FrameView, config: &ChartConfig, bar: int) -> int {
    sum_of(
        category_values(
            category_labels(table, config),
            group_labels(table, config),
            stacked_values(table, config),
            distinct_of(category_labels(table, config))[bar],
            sorted_texts(group_labels(table, config)),
        ),
    )
}

/// The largest height among the first `n` bars, and zero at least.
pub open spec fn tallest(table: FrameView, config: &ChartConfig, n: nat) -> int
    decreases n,
{
    if n == 0 {
        0
    } else if tallest(table, config, (n - 1) as nat) >= bar_height(table, config, n - 1) {
        tallest(table, config, (n - 1) as nat)
    } else {
        bar_height(table, config, n - 1)
    }
}

/// The height that scales the chart: with an x column the height of the
/// tallest bar, and zero at least; without one the height of the only bar.
pub open spec fn chart_height(table: FrameView, config: &ChartConfig) -> int {
    if has_x_column(table, config) {
        tallest(table, config, distinct_of(category_labels(table, config)).len())
    } else {
        bar_height(table, config, 0)
    }
}

/// The largest of the first `n` tops, zero at least, is the height of the
/// tallest of the first `n` bars where each top is the height of its bar.
proof fn lemma_tallest(table: FrameView, config: &ChartConfig, tops: Seq<i128>, n: nat)
    requires
        n <= tops.len(),
        forall|c: int| 0 <= c < n ==> #[trigger] tops[c] == bar_height(table, config, c),
    ensures
        max_from(0, tops.take(n as int)) == tallest(table, config, n),
    decreases n,
{
    if n > 0 {
        lemma_tallest(table, config, tops, (n - 1) as nat);
        assert(tops.take(n as int).drop_last() =~= tops.take(n - 1));
        assert(tops.take(n as int).last() == tops[n - 1]);
    }
}

/// The end of the last interval of each stack; zero for an empty stack.
pub open spec fn stack_tops(stacks: Seq<Vec<Interval>>) -> Seq<i128> {
    Seq::new(
        stacks.len(),
        |c: int| if stacks[c]@.len() == 0 {
            0
        } else {
            stacks[c]@.last().end
        },
    )
}

/// Whether the bars of `plan` are those of the rows read: the groups are the
/// different group labels in lexicographic order; there is one stack per
/// bar; the stack of a bar stacks, group by group, the value of the last row
/// with that category and group, or zero; layer `g` has colour `g`.
pub open spec fn has_stacks_of(
    plan: &StackedBarPlan,
    bars: Seq<Seq<char>>,
    categories: Seq<Seq<char>>,
    groups: Seq<Seq<char>>,
    values: Seq<i128>,
    palette: Seq<Rgb>,
) -> bool {
    &&& is_sorted_texts_of(strings_view(plan.groups@), groups)
    &&& plan.stacks@.len() == bars.len()
    &&& forall|c: int|
        0 <= c < bars.len() ==> is_stack_of(
            (#[trigger] plan.stacks@[c])@,
            category_values(categories, groups, values, bars[c], strings_view(plan.groups@)),
        )
    &&& plan.colors@ == layer_colors(palette, plan.groups@.len() as nat)
}

/// Whether `plan` is the stacked bar chart of the table. With an x column
/// there is one bar per category, the categories in the order in which the
/// rows first name them, and the chart is as high as the highest bar, at
/// least zero. Without it there is one bar and no category; the x axis is
/// named after the group column, and the chart is as high as that bar.
pub open spec fn is_stacked_plan(
    plan: &StackedBarPlan,
    table: FrameView,
    config: &ChartConfig,
    title: Seq<char>,
    palette: Seq<Rgb>,
) -> bool {
    let labels = category_labels(table, config);
    let groups = group_labels(table, config);
    let values = stacked_values(table, config);
    &&& plan.title@ == title
    &&& plan.y_label@ == bound_text(config.y)
    &&& plan.y_upper == padded(plan.max_height as int)
    &&& has_stacks_of(plan, distinct_of(labels), labels, groups, values, palette)
    &&& if has_x_column(table, config) {
        &&& plan.x_label@ == bound_text(config.x)
        &&& strings_view(plan.categories@) == distinct_of(labels)
        &&& plan.max_height == max_from(0, stack_tops(plan.stacks@))
    } else {
        &&& plan.x_label@ == bound_text(config.group_by)
        &&& plan.categories@.len() == 0
        &&& plan.max_height == stack_tops(plan.stacks@)[0]
    }
}

/// In the stacked bar chart of a table, the top of every bar is the sum of
/// the values that its groups have in the bar's category.
pub proof fn law_bar_tops_are_sums(
    plan: &StackedBarPlan,
    table: FrameView,
    config: &ChartConfig,
    title: Seq<char>,
    palette: Seq<Rgb>,
    bar: int,
)
    requires
        is_stacked_plan(plan, table, config, title, palette),
        0 <= bar < plan.stacks@.len(),
        plan.groups@.len() > 0,
    ensures
        plan.stacks@[bar]@.len() == plan.groups@.len(),
        plan.stacks@[bar]@.last().end == sum_of(
            category_values(
                category_labels(table, config),
                group_labels(table, config),
                stacked_values(table, config),
                distinct_of(category_labels(table, config))[bar],
                strings_view(plan.groups@),
            ),
        ),
{
    let values = category_values(
        category_labels(table, config),
        group_labels(table, config),
        stacked_values(table, config),
        distinct_of(category_labels(table, config))[bar],
        strings_view(plan.groups@),
    );
    assert(is_stack_of(plan.stacks@[bar]@, values));
    law_stack_ends_at_sum(plan.stacks@[bar]@, values);
}

fn build_stacks(
    bars: &Vec<Vec<char>>,
    labels: &Vec<Vec<char>>,
    groups: &Vec<Vec<char>>,
    values: &Vec<i128>,
    order: &Vec<Vec<char>>,
) -> (r: (Vec<Vec<Interval>>, Vec<i128>))
    requires
        labels@.len() == values@.len(),
        groups@.len() == values@.len(),
        within_limit(values@),
        order@.len() <= 4096,
    ensures
        r.0@.len() == bars@.len(),
        forall|c: int|
            0 <= c < bars@.len() ==> is_stack_of(
                (#[trigger] r.0@[c])@,
                category_values(
                    texts_view(labels@),
                    texts_view(groups@),
                    values@,
                    bars@[c]@,
                    texts_view(order@),
                ),
            ),
        r.1@ == stack_tops(r.0@),
        forall|c: int|
            0 <= c < r.1@.len() ==> -SUM_LIMIT <= #[trigger] r.1@[c] <= SUM_LIMIT,
        forall|c: int|
            0 <= c < bars@.len() ==> #[trigger] r.1@[c] == sum_of(
                category_values(
                    texts_view(labels@),
                    texts_view(groups@),
                    values@,
                    bars@[c]@,
                    texts_view(order@),
                ),
            ),
{
    let mut stacks: Vec<Vec<Interval>> = Vec::new();
    let mut tops: Vec<i128> = Vec::new();
    let mut c: usize = 0;
    while c < bars.len()
        invariant
            labels@.len() == values@.len(),
            groups@.len() == values@.len(),
            within_limit(values@),
            order@.len() <= 4096,
            c <= bars.len(),
            stacks@.len() == c,
            tops@.len() == c,
            forall|k: int|
                0 <= k < c ==> is_stack_of(
                    (#[trigger] stacks@[k])@,
                    category_values(
                        texts_view(labels@),
                        texts_view(groups@),
                        values@,
                        bars@[k]@,
                        texts_view(order@),
                    ),
                ),
            forall|k: int| 0 <= k < c ==> #[trigger] tops@[k] == stack_tops(stacks@)[k],
            forall|k: int|
                0 <= k < c ==> -SUM_LIMIT <= #[trigger] tops@[k] <= SUM_LIMIT,
            forall|k: int|
                0 <= k < c ==> #[trigger] tops@[k] == sum_of(
                    category_values(
                        texts_view(labels@),
                        texts_view(groups@),
                        values@,
                        bars@[k]@,
                        texts_view(order@),
                    ),
                ),
        decreases bars.len() - c,
    {
        let row: Vec<i128> = read_category(labels, groups, values, &bars[c], order);
        proof {
            lemma_sums_fit(row@);
        }
        let stack: Vec<Interval> = stack_intervals(&row);
        proof {
            assert(row@.take(row@.len() as int) =~= row@);
            if stack@.len() > 0 {
                assert(stack@[stack@.len() - 1].end == sum_of(row@.take(row@.len() as int)));
            }
        }
        let top: i128 = if stack.len() == 0 {
            0
        } else {
            stack[stack.len() - 1].end
        };
        let ghost before = stacks@;
        stacks.push(stack);
        tops.push(top);
        assert forall|k: int| 0 <= k < c + 1 implies #[trigger] tops@[k] == stack_tops(
            stacks@,
        )[k] by {
            if k < c {
                assert(stacks@[k] == before[k]);
                assert(stack_tops(before)[k] == stack_tops(stacks@)[k]);
            }
        }
        c += 1;
    }
    assert(tops@ =~= stack_tops(stacks@));
    (stacks, tops)
}

/// What `render` owes for a table and a declaration: the failure, nothing to
/// draw, or the plan of the chart.
pub open spec fn renders(
    r: Result<Option<StackedBarPlan>, RenderError>,
    table: FrameView,
    config: &ChartConfig,
    surface: Surface,
    title: Seq<char>,
    style: &ChartStyle,
) -> bool {
    match r {
        Err(e) => stacked_error(table, config) == Some(e),
        Ok(None) => stacked_error(table, config) is None && (table.height() == 0
            || chart_height(table, config) == 0),
        Ok(Some(plan)) => stacked_error(table, config) is None && table.height() > 0
            && chart_height(table, config) != 0 && plan.max_height == chart_height(table, config)
            && is_stacked_plan(&plan, table, config, title, style.colors.primary@),
    }
}

/// Lays out a stacked bar chart from the first fifty rows. The declaration
/// must bind a group column. Where the table has the x column, each of its
/// labels is a category with a bar of its own; else all rows share one bar.
/// Within a bar the groups are stacked in the lexicographic order of their
/// labels, each layer as long as the quantity of the last row with that
/// category and group. A table without rows, or whose chart would be of
/// height zero, gives nothing to draw.
pub fn render(
    frame: &Frame,
    config: &ChartConfig,
    surface: &Surface,
    title: &str,
    legend_position: &LegendPosition,
    style: &ChartStyle,
) -> (r: Result<Option<StackedBarPlan>, RenderError>)
    ensures
        renders(r, frame@, config, *surface, title@, style),
{
    let t: ChartType = ChartType::BarStacked;
    if config.group_by.is_none() {
        return Err(RenderError::MissingField { chart_type: t, field: Binding::GroupBy });
    }
    let x: Option<usize> = match &config.x {
        None => {
            return Err(RenderError::MissingField { chart_type: t, field: Binding::X });
        },
        Some(name) => frame.find_column(name),
    };
    let with_x: bool = x.is_some();
    let (y, g): (usize, usize) = if with_x {
        let y: usize = match resolve(frame, &config.y, t, Binding::Y) {
            Ok(c) => c,
            Err(e) => {
                return Err(e);
            },
        };
        let g: usize = match resolve(frame, &config.group_by, t, Binding::GroupBy) {
            Ok(c) => c,
            Err(e) => {
                return Err(e);
            },
        };
        (y, g)
    } else {
        let g: usize = match resolve(frame, &config.group_by, t, Binding::GroupBy) {
            Ok(c) => c,
            Err(e) => {
                return Err(e);
            },
        };
        let y: usize = match resolve(frame, &config.y, t, Binding::Value) {
            Ok(c) => c,
            Err(e) => {
                return Err(e);
            },
        };
        (y, g)
    };
    let height: usize = frame.height();
    let n: usize = if height < MAX_STACKED_ROWS {
        height
    } else {
        MAX_STACKED_ROWS
    };
    if n == 0 {
        return Ok(None);
    }
    let labels: Vec<Vec<char>> = match x {
        Some(c) => read_labels(frame, c, n),
        None => {
            let mut blank: Vec<Vec<char>> = Vec::new();
            let mut i: usize = 0;
            while i < n
                invariant
                    i <= n,
                    blank@.len() == i,
                    forall|k: int| 0 <= k < i ==> (#[trigger] blank@[k])@ == Seq::<char>::empty(),
                decreases n - i,
            {
                blank.push(Vec::new());
                i += 1;
            }
            blank
        },
    };
    assert(texts_view(labels@) =~= category_labels(frame@, config));
    let groups: Vec<Vec<char>> = read_labels(frame, g, n);
    let values: Vec<i128> = read_plotted(frame, y, n);
    let bars: Vec<Vec<char>> = distinct_texts(&labels);
    let order: Vec<Vec<char>> = sort_texts(&groups);
    let (stacks, tops): (Vec<Vec<Interval>>, Vec<i128>) = build_stacks(
        &bars,
        &labels,
        &groups,
        &values,
        &order,
    );
    proof {
        lemma_distinct_of(texts_view(labels@));
        assert(texts_view(labels@).contains(texts_view(labels@)[0]));
        assert(texts_view(bars@).contains(texts_view(labels@)[0]));
        assert(bars@.len() > 0);
        lemma_max_from(0, tops@);
        assert(texts_view(groups@) == group_labels(frame@, config));
        assert(values@ == stacked_values(frame@, config));
        assert forall|c: int| 0 <= c < bars@.len() implies #[trigger] tops@[c] == bar_height(
            frame@,
            config,
            c,
        ) by {
            assert(texts_view(bars@)[c] == bars@[c]@);
        }
        lemma_tallest(frame@, config, tops@, tops@.len());
        assert(tops@.take(tops@.len() as int) =~= tops@);
    }
    let max_height: i128 = if with_x {
        max_of(0, &tops)
    } else {
        tops[0]
    };
    let x_label: String = if with_x {
        bound_string(&config.x)
    } else {
        bound_string(&config.group_by)
    };
    let categories: Vec<String> = if with_x {
        strings_of(&bars)
    } else {
        Vec::new()
    };
    let group_names: Vec<String> = strings_of(&order);
    let colors: Vec<Rgb> = pick_colors(style, order.len());
    let plan: StackedBarPlan = StackedBarPlan {
        title: String::from_str(title),
        x_label,
        y_label: bound_string(&config.y),
        categories,
        groups: group_names,
        stacks,
        colors,
        max_height,
        y_upper: pad_upper(max_height),
    };
    assert(is_stacked_plan(&plan, frame@, config, title@, style.colors.primary@));
    if max_height == 0 {
        Ok(None)
    } else {
        Ok(Some(plan))
    }
}

} // verus!
