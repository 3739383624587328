//! Line charts: the value of every row, joined in row order.

use vstd::prelude::*;
use vstd::string::*;
use crate::chart::{bound_text, label_binding, points_of, read_series, series_error, series_points, series_values, Point, RenderError, Series, Surface};
use crate::chart_spec::{ChartConfig, ChartType, LegendPosition};
use crate::frame::{Frame, FrameView};
use crate::measure::{lemma_max_from, max_from, max_of, pad_upper, padded};
use crate::styling::{ChartStyle, Rgb};
use crate::chart::cycle_color;

verus! {

/// What to draw for a line chart. The x axis runs from zero to `x_upper`, the
/// y axis from zero to `y_upper`, both in thousandths.
#[derive(Debug)]
pub struct LinePlan {
    pub title: String,
    pub x_label: String,
    pub y_label: String,
    pub points: Vec<Point>,
    pub x_upper: i128,
    pub y_upper: i128,
    pub color: Rgb,
    pub point_size: u32,
}

/// Whether `plan` is the line chart of the table: one point per row, at the
/// row's position and the row's quantity, the x axis as long as there are
/// rows and the y axis a tenth above the highest point.
pub open spec fn is_line_plan(
    plan: &LinePlan,
    table: FrameView,
    config: &ChartConfig,
    title: Seq<char>,
    style: &ChartStyle,
) -> bool {
    &&& plan.title@ == title
    &&& plan.x_label@ == bound_text(label_binding(config))
    &&& plan.y_label@ == bound_text(config.y)
    &&& plan.points@ == points_of(series_values(table, config, None))
    &&& plan.x_upper == table.height() * 1000
    &&& plan.y_upper == padded(max_from(0, series_values(table, config, None)))
    &&& plan.color == cycle_color(style.colors.primary@, 0)
    &&& plan.point_size == style.layout.elements.line_points
}

/// What `render` owes for a table and a declaration: the failure, nothing to
/// draw, or the plan of the chart.
pub open spec fn renders(
    r: Result<Option<LinePlan>, RenderError>,
    table: FrameView,
    config: &ChartConfig,
    surface: Surface,
    title: Seq<char>,
    style: &ChartStyle,
) -> bool {
    match r {
        Err(e) => series_error(table, config, ChartType::Line) == Some(e),
        Ok(None) => series_error(table, config, ChartType::Line) is None && table.height()
            == 0,
        Ok(Some(plan)) => series_error(table, config, ChartType::Line) is None
            && table.height() > 0 && is_line_plan(&plan, table, config, title, style),
    }
}

/// Lays out a line chart: every row gives one point, at the row's position
/// and the row's quantity in the value column (zero where that is not a
/// number). A declaration with a group column names the x axis by it; the
/// points are the same. An empty table gives nothing to draw.
pub fn render(
    frame: &Frame,
    config: &ChartConfig,
    surface: &Surface,
    title: &str,
    legend_position: &LegendPosition,
    style: &ChartStyle,
) -> (r: Result<Option<LinePlan>, RenderError>)
    ensures
        renders(r, frame@, config, *surface, title@, style),
{
    let series: Series = match read_series(frame, config, ChartType::Line, None) {
        Ok(series) => series,
        Err(e) => {
            return Err(e);
        },
    };
    let n: usize = series.values.len();
    if n == 0 {
        return Ok(None);
    }
    let top: i128 = max_of(0, &series.values);
    proof {
        lemma_max_from(0, series.values@);
    }
    Ok(
        Some(
            LinePlan {
                title: String::from_str(title),
                x_label: series.x_label,
                y_label: series.y_label,
                points: series_points(&series.values),
                x_upper: (n as i128) * 1000,
                y_upper: pad_upper(top),
                color: style.get_primary_color(0),
                point_size: style.layout.elements.line_points,
            },
        ),
    )
}

} // verus!
