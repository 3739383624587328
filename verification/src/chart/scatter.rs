//! Scatter plots: one point per row for the first thousand rows.

use vstd::prelude::*;
use vstd::string::*;
use crate::chart::{Binding, bound_string, bound_text, cycle_color, Point, RenderError, resolve, resolved, Surface};
use crate::chart_spec::{ChartConfig, ChartType, LegendPosition};
use crate::frame::{CellView, extract_numeric_value, Frame, FrameView, measure_of, plotted, plotted_value};
use crate::measure::{floor_div, lemma_max_from, lemma_min_from, max_from, max_of, min_from, min_of, sampled, within_limit};
use crate::styling::{ChartStyle, Rgb};

verus! {

/// The most points that a scatter plot shows.
pub const MAX_SCATTER_POINTS: usize = 1000;

/// What to draw for a scatter plot: the points, and the ends of both axes,
/// all in thousandths.
#[derive(Debug)]
pub struct ScatterPlan {
    pub title: String,
    pub x_label: String,
    pub y_label: String,
    pub points: Vec<Point>,
    pub x_lower: i128,
    pub x_upper: i128,
    pub y_lower: i128,
    pub y_upper: i128,
    pub color: Rgb,
    pub point_size: u32,
}

/// Where row `i` stands on the x axis: at the quantity of its x cell, or at
/// `i` where that cell is not a number.
pub open spec fn x_of(cell: CellView, i: int) -> int {
    match measure_of(cell) {
        Some(m) => m,
        None => i * 1000,
    }
}

/// The point of each of the first `n` rows.
pub open spec fn scattered(xs: Seq<CellView>, ys: Seq<CellView>, n: nat) -> Seq<Point> {
    Seq::new(n, |i: int| Point { x: x_of(xs[i], i) as i128, y: plotted(ys[i]) as i128 })
}

/// The x coordinates of a run of points.
pub open spec fn xs_of(points: Seq<Point>) -> Seq<i128> {
    Seq::new(points.len(), |i: int| points[i].x)
}

/// The y coordinates of a run of points.
pub open spec fn ys_of(points: Seq<Point>) -> Seq<i128> {
    Seq::new(points.len(), |i: int| points[i].y)
}

/// The padding of an axis: a tenth of the extent of the values.
pub open spec fn axis_padding(values: Seq<i128>) -> int {
    (max_from(values[0] as int, values) - min_from(values[0] as int, values)) / 10
}

/// The lower end of an axis: the smallest value less the padding.
pub open spec fn axis_lower(values: Seq<i128>) -> int {
    min_from(values[0] as int, values) - axis_padding(values)
}

/// The upper end of an axis: the largest value plus the padding.
pub open spec fn axis_upper(values: Seq<i128>) -> int {
    max_from(values[0] as int, values) + axis_padding(values)
}

/// Why a scatter plot cannot be laid out: the x column is looked up first,
/// then the y column.
pub open spec fn scatter_error(table: FrameView, config: &ChartConfig) -> Option<RenderError> {
    let t = ChartType::Scatter;
    if resolved(table, config.x, t, Binding::X) is Err {
        Some(resolved(table, config.x, t, Binding::X)->Err_0)
    } else if resolved(table, config.y, t, Binding::Y) is Err {
        Some(resolved(table, config.y, t, Binding::Y)->Err_0)
    } else {
        None
    }
}

/// The points of the scatter plot of the table.
pub open spec fn scatter_points(table: FrameView, config: &ChartConfig) -> Seq<Point> {
    scattered(
        table.column(bound_text(config.x)),
        table.column(bound_text(config.y)),
        sampled(table.height(), MAX_SCATTER_POINTS as nat),
    )
}

/// Whether `plan` is the scatter plot of the table: one point per row read,
/// and each axis running a tenth of its extent past the smallest and the
/// largest coordinate.
pub open spec fn is_scatter_plan(
    plan: &ScatterPlan,
    table: FrameView,
    config: &ChartConfig,
    title: Seq<char>,
    style: &ChartStyle,
) -> bool {
    let points = scatter_points(table, config);
    &&& plan.title@ == title
    &&& plan.x_label@ == bound_text(config.x)
    &&& plan.y_label@ == bound_text(config.y)
    &&& plan.points@ == points
    &&& plan.x_lower == axis_lower(xs_of(points))
    &&& plan.x_upper == axis_upper(xs_of(points))
    &&& plan.y_lower == axis_lower(ys_of(points))
    &&& plan.y_upper == axis_upper(ys_of(points))
    &&& plan.color == cycle_color(style.colors.primary@, 0)
    &&& plan.point_size == style.layout.elements.line_points
}

fn axis_ends(values: &Vec<i128>) -> (ends: (i128, i128))
    requires
        values@.len() > 0,
        within_limit(values@),
    ensures
        ends.0 == axis_lower(values@),
        ends.1 == axis_upper(values@),
{
    let low: i128 = min_of(values[0], values);
    let high: i128 = max_of(values[0], values);
    proof {
        lemma_min_from(values@[0] as int, values@);
        lemma_max_from(values@[0] as int, values@);
    }
    let padding: i128 = floor_div(high - low, 10);
    assert(0 <= padding <= high - low) by {
        vstd::arithmetic::div_mod::lemma_div_pos_is_pos(high - low, 10);
        vstd::arithmetic::div_mod::lemma_div_is_ordered_by_denominator(high - low, 1, 10);
    }
    (low - padding, high + padding)
}

/// What `render` owes for a table and a declaration: the failure, nothing to
/// draw, or the plan of the chart.
pub open spec fn renders(
    r: Result<Option<ScatterPlan>, RenderError>,
    table: FrameView,
    config: &ChartConfig,
    surface: Surface,
    title: Seq<char>,
    style: &ChartStyle,
) -> bool {
    match r {
        Err(e) => scatter_error(table, config) == Some(e),
        Ok(None) => scatter_error(table, config) is None && table.height() == 0,
        Ok(Some(plan)) => scatter_error(table, config) is None && table.height() > 0
            && is_scatter_plan(&plan, table, config, title, style),
    }
}

/// Lays out a scatter plot from the first thousand rows. A row stands at the
/// quantity of its x cell, or at its row number where that cell is not a
/// number, and at the quantity of its y cell, or at zero. Each axis runs a
/// tenth of its extent past its smallest and largest coordinate. An empty
/// table gives nothing to draw.
pub fn render(
    frame: &Frame,
    config: &ChartConfig,
    surface: &Surface,
    title: &str,
    legend_position: &LegendPosition,
    style: &ChartStyle,
) -> (r: Result<Option<ScatterPlan>, RenderError>)
    ensures
        renders(r, frame@, config, *surface, title@, style),
{
    let t: ChartType = ChartType::Scatter;
    let x: usize = match resolve(frame, &config.x, t, Binding::X) {
        Ok(c) => c,
        Err(e) => {
            return Err(e);
        },
    };
    let y: usize = match resolve(frame, &config.y, t, Binding::Y) {
        Ok(c) => c,
        Err(e) => {
            return Err(e);
        },
    };
    let height: usize = frame.height();
    let n: usize = if height < MAX_SCATTER_POINTS {
        height
    } else {
        MAX_SCATTER_POINTS
    };
    if n == 0 {
        return Ok(None);
    }
    let ghost expected = scatter_points(frame@, config);
    let mut points: Vec<Point> = Vec::new();
    let mut xs: Vec<i128> = Vec::new();
    let mut ys: Vec<i128> = Vec::new();
    let mut i: usize = 0;
    while i < n
        invariant
            x < frame@.names.len(),
            y < frame@.names.len(),
            n <= frame@.height(),
            n <= MAX_SCATTER_POINTS,
            n == expected.len(),
            expected == scattered(frame@.cells[x as int], frame@.cells[y as int], n as nat),
            i <= n,
            points@.len() == i,
            xs@.len() == i,
            ys@.len() == i,
            within_limit(xs@),
            within_limit(ys@),
            forall|k: int| 0 <= k < i ==> #[trigger] points@[k] == expected[k],
            forall|k: int| 0 <= k < i ==> #[trigger] xs@[k] == expected[k].x,
            forall|k: int| 0 <= k < i ==> #[trigger] ys@[k] == expected[k].y,
        decreases n - i,
    {
        let px: i128 = match extract_numeric_value(frame.cell(x, i)) {
            Some(m) => m,
            None => (i as i128) * 1000,
        };
        let py: i128 = plotted_value(frame.cell(y, i));
        points.push(Point { x: px, y: py });
        xs.push(px);
        ys.push(py);
        i += 1;
    }
    assert(points@ =~= expected);
    assert(xs@ =~= xs_of(expected));
    assert(ys@ =~= ys_of(expected));
    let (x_lower, x_upper): (i128, i128) = axis_ends(&xs);
    let (y_lower, y_upper): (i128, i128) = axis_ends(&ys);
    Ok(
        Some(
            ScatterPlan {
                title: String::from_str(title),
                x_label: bound_string(&config.x),
                y_label: bound_string(&config.y),
                points,
                x_lower,
                x_upper,
                y_lower,
                y_upper,
                color: style.get_primary_color(0),
                point_size: style.layout.elements.line_points,
            },
        ),
    )
}

} // verus!
