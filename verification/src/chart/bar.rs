//! Bar charts: one bar per row, for up to twenty rows.

use vstd::prelude::*;
use vstd::string::*;
use crate::chart::{bound_text, cycle_color, label_binding, read_series, series_error, series_values, RenderError, Series, Surface};
use crate::chart_spec::{ChartConfig, ChartType, LegendPosition};
use crate::frame::{Frame, FrameView};
use crate::measure::{lemma_max_from, max_from, max_of, pad_upper, padded};
use crate::styling::{ChartStyle, Rgb};

verus! {

/// The most bars that a bar chart shows.
pub const MAX_BARS: usize = 20;

/// One bar: its slot on the x axis, its height in thousandths and its colour.
#[derive(Debug, Clone, Copy, PartialEq, Eq, Structural)]
pub struct Bar {
    pub index: usize,
    pub height: i128,
    pub color: Rgb,
}

/// What to draw for a bar chart. The y axis runs from zero to `y_upper`, the
/// x axis over one slot per bar.
#[derive(Debug)]
pub struct BarPlan {
    pub title: String,
    pub x_label: String,
    pub y_label: String,
    pub bars: Vec<Bar>,
    pub y_upper: i128,
}

/// The bars for a run of heights: bar `i` stands in slot `i`, has the `i`-th
/// height and the `i`-th colour of the palette's cycle.
pub open spec fn bars_of(heights: Seq<i128>, palette: Seq<Rgb>) -> Seq<Bar> {
    Seq::new(
        heights.len(),
        |i: int| Bar { index: i as usize, height: heights[i], color: cycle_color(palette, i) },
    )
}

/// Whether `plan` is the bar chart of the table: the title as given, the
/// axes named after the label column and the value column, one bar per
/// sampled row, and the y axis a tenth above the highest bar.
pub open spec fn is_bar_plan(
    plan: &BarPlan,
    table: FrameView,
    config: &ChartConfig,
    title: Seq<char>,
    palette: Seq<Rgb>,
) -> bool {
    &&& plan.title@ == title
    &&& plan.x_label@ == bound_text(label_binding(config))
    &&& plan.y_label@ == bound_text(config.y)
    &&& plan.bars@ == bars_of(series_values(table, config, Some(MAX_BARS)), palette)
    &&& plan.y_upper == padded(max_from(0, series_values(table, config, Some(MAX_BARS))))
}

/// What `render` owes for a table and a declaration: the failure, nothing to
/// draw, or the plan of the chart.
pub open spec fn renders(
    r: Result<Option<BarPlan>, RenderError>,
    table: FrameView,
    config: &ChartConfig,
    surface: Surface,
    title: Seq<char>,
    style: &ChartStyle,
) -> bool {
    match r {
        Err(e) => series_error(table, config, ChartType::Bar) == Some(e),
        Ok(None) => series_error(table, config, ChartType::Bar) is None && table.height() == 0,
        Ok(Some(plan)) => series_error(table, config, ChartType::Bar) is None && table.height() > 0
            && is_bar_plan(&plan, table, config, title, style.colors.primary@),
    }
}

/// Lays out a bar chart: one bar per row for the first twenty rows, each as
/// high as the row's quantity in the value column (zero where that is not a
/// number), coloured by its position. A declaration with a group column
/// names the bars by it. An empty table gives nothing to draw.
pub fn render(
    frame: &Frame,
    config: &ChartConfig,
    surface: &Surface,
    title: &str,
    legend_position: &LegendPosition,
    style: &ChartStyle,
) -> (r: Result<Option<BarPlan>, RenderError>)
    ensures
        renders(r, frame@, config, *surface, title@, style),
{
    let series: Series = match read_series(frame, config, ChartType::Bar, Some(MAX_BARS)) {
        Ok(series) => series,
        Err(e) => {
            return Err(e);
        },
    };
    let heights: &Vec<i128> = &series.values;
    let n: usize = heights.len();
    if n == 0 {
        return Ok(None);
    }
    let top: i128 = max_of(0, heights);
    proof {
        lemma_max_from(0, heights@);
    }
    let mut bars: Vec<Bar> = Vec::new();
    let mut i: usize = 0;
    while i < n
        invariant
            i <= n,
            n == heights@.len(),
            bars@.len() == i,
            forall|k: int|
                0 <= k < i ==> #[trigger] bars@[k] == bars_of(
                    heights@,
                    style.colors.primary@,
                )[k],
        decreases n - i,
    {
        bars.push(Bar { index: i, height: heights[i], color: style.get_primary_color(i) });
        i += 1;
    }
    assert(bars@ =~= bars_of(heights@, style.colors.primary@));
    Ok(
        Some(
            BarPlan {
                title: String::from_str(title),
                x_label: series.x_label,
                y_label: series.y_label,
                bars,
                y_upper: pad_upper(top),
            },
        ),
    )
}

} // verus!
