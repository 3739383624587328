//! Area charts: the line of the first hundred rows, filled down to zero.

use vstd::prelude::*;
use vstd::string::*;
use crate::chart::{bound_text, cycle_color, label_binding, Point, points_of, read_series, RenderError, Series, series_error, series_points, series_values, Surface};
use crate::chart_spec::{ChartConfig, ChartType, LegendPosition};
use crate::frame::{Frame, FrameView};
use crate::measure::{lemma_max_from, max_from, max_of, pad_upper, padded};
use crate::styling::{ChartStyle, Rgb};

verus! {

/// The most points that an area chart shows.
pub const MAX_AREA_POINTS: usize = 100;

/// The opacity of the fill under the line, in percent.
pub const FILL_OPACITY: u32 = 30;

/// The region between two neighbouring points and the zero line: the polygon
/// from `(left.x, 0)` up to `left`, across to `right` and down to
/// `(right.x, 0)`.
#[derive(Debug, Clone, Copy, PartialEq, Eq, Structural)]
pub struct Trapezoid {
    pub left: Point,
    pub right: Point,
}

/// What to draw for an area chart: the trapezoids under the line, then the
/// line on top of them.
#[derive(Debug)]
pub struct AreaPlan {
    pub title: String,
    pub x_label: String,
    pub y_label: String,
    pub points: Vec<Point>,
    pub fills: Vec<Trapezoid>,
    pub x_upper: i128,
    pub y_upper: i128,
    pub color: Rgb,
    pub fill_opacity: u32,
}

/// The trapezoids under a line: one for each pair of neighbouring points.
pub open spec fn fills_of(points: Seq<Point>) -> Seq<Trapezoid> {
    Seq::new(
        if points.len() == 0 {
            0
        } else {
            (points.len() - 1) as nat
        },
        |i: int| Trapezoid { left: points[i], right: points[i + 1] },
    )
}

/// The trapezoids under a line: one for each pair of neighbouring points.
pub fn trapezoids(points: &Vec<Point>) -> (fills: Vec<Trapezoid>)
    ensures
        fills@ == fills_of(points@),
{
    let mut fills: Vec<Trapezoid> = Vec::new();
    if points.len() == 0 {
        assert(fills@ =~= fills_of(points@));
        return fills;
    }
    let mut i: usize = 0;
    while i < points.len() - 1
        invariant
            points@.len() > 0,
            i <= points@.len() - 1,
            fills@.len() == i,
            forall|k: int| 0 <= k < i ==> #[trigger] fills@[k] == fills_of(points@)[k],
        decreases points@.len() - 1 - i,
    {
        fills.push(Trapezoid { left: points[i], right: points[i + 1] });
        i += 1;
    }
    assert(fills@ =~= fills_of(points@));
    fills
}

/// Whether `plan` is the area chart of the table: the points of the first
/// hundred rows, a trapezoid under each pair of neighbours, and the axes of
/// the line chart over those points.
pub open spec fn is_area_plan(
    plan: &AreaPlan,
    table: FrameView,
    config: &ChartConfig,
    title: Seq<char>,
    style: &ChartStyle,
) -> bool {
    let values = series_values(table, config, Some(MAX_AREA_POINTS));
    &&& plan.title@ == title
    &&& plan.x_label@ == bound_text(label_binding(config))
    &&& plan.y_label@ == bound_text(config.y)
    &&& plan.points@ == points_of(values)
    &&& plan.fills@ == fills_of(points_of(values))
    &&& plan.x_upper == values.len() * 1000
    &&& plan.y_upper == padded(max_from(0, values))
    &&& plan.color == cycle_color(style.colors.primary@, 0)
    &&& plan.fill_opacity == FILL_OPACITY
}

/// What `render` owes for a table and a declaration: the failure, nothing to
/// draw, or the plan of the chart.
pub open spec fn renders(
    r: Result<Option<AreaPlan>, RenderError>,
    table: FrameView,
    config: &ChartConfig,
    surface: Surface,
    title: Seq<char>,
    style: &ChartStyle,
) -> bool {
    match r {
        Err(e) => series_error(table, config, ChartType::Area) == Some(e),
        Ok(None) => series_error(table, config, ChartType::Area) is None && table.height()
            == 0,
        Ok(Some(plan)) => series_error(table, config, ChartType::Area) is None
            && table.height() > 0 && is_area_plan(&plan, table, config, title, style),
    }
}

/// Lays out an area chart: the first hundred rows give one point each, as in
/// a line chart; the region between each pair of neighbouring points and the
/// zero line is filled, and the line is drawn over the fill. An empty table
/// gives nothing to draw.
pub fn render(
    frame: &Frame,
    config: &ChartConfig,
    surface: &Surface,
    title: &str,
    legend_position: &LegendPosition,
    style: &ChartStyle,
) -> (r: Result<Option<AreaPlan>, RenderError>)
    ensures
        renders(r, frame@, config, *surface, title@, style),
{
    let series: Series = match read_series(frame, config, ChartType::Area, Some(MAX_AREA_POINTS)) {
        Ok(series) => series,
        Err(e) => {
            return Err(e);
        },
    };
    let n: usize = series.values.len();
    if n == 0 {
        return Ok(None);
    }
    let top: i128 = max_of(0, &series.values);
    proof {
        lemma_max_from(0, series.values@);
    }
    let points: Vec<Point> = series_points(&series.values);
    let fills: Vec<Trapezoid> = trapezoids(&points);
    Ok(
        Some(
            AreaPlan {
                title: String::from_str(title),
                x_label: series.x_label,
                y_label: series.y_label,
                points,
                fills,
                x_upper: (n as i128) * 1000,
                y_upper: pad_upper(top),
                color: style.get_primary_color(0),
                fill_opacity: FILL_OPACITY,
            },
        ),
    )
}

} // verus!
