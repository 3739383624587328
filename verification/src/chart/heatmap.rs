//! Heatmaps: one cell per row, shaded by where the row's value lies between
//! the smallest and the largest.

use vstd::prelude::*;
use vstd::string::*;
use crate::chart::bar::{is_bar_plan, BarPlan};
use crate::chart::{bound_string, bound_text, resolve, resolved, series_error, shade, shade_color, Binding, RenderError, Surface};
use crate::chart_spec::{ChartConfig, ChartType, LegendPosition};
use crate::frame::{Frame, FrameView, MEASURE_LIMIT};
use crate::measure::{floor_div, lemma_max_from, lemma_min_from, max_from, max_of, min_from, min_of, plotted_cells, read_plotted, sampled, within_limit};
use crate::styling::{ChartStyle, Rgb};

verus! {

/// The most rows that a heatmap reads.
pub const MAX_HEAT_ROWS: usize = 100;

/// One cell of a heatmap: the square from `(index, index)` to
/// `(index + 1, index + 1)`, its value in thousandths and its colour.
#[derive(Debug, Clone, Copy, PartialEq, Eq, Structural)]
pub struct HeatCell {
    pub index: usize,
    pub value: i128,
    pub color: Rgb,
}

/// What to draw for a heatmap: the cells along the diagonal of a square
/// with one slot per cell on each axis.
#[derive(Debug)]
pub struct HeatmapPlan {
    pub title: String,
    pub x_label: String,
    pub y_label: String,
    pub z_label: String,
    pub cells: Vec<HeatCell>,
}

/// What a heatmap declaration gives: cells, or bars where it binds no z.
#[derive(Debug)]
pub enum HeatmapOutcome {
    Cells(HeatmapPlan),
    Bars(BarPlan),
}

/// The top of the scale: the largest of the values.
pub open spec fn scale_top(values: Seq<i128>) -> int {
    max_from(values[0] as int, values)
}

/// The bottom of the scale: the smallest of the values.
pub open spec fn scale_bottom(values: Seq<i128>) -> int {
    min_from(values[0] as int, values)
}

/// The intensity of a value, in thousandths: where it lies between the
/// bottom and the top of the scale; a half where the scale has no extent.
pub open spec fn intensity_of(value: int, bottom: int, top: int) -> int {
    if top > bottom {
        (value - bottom) * 1000 / (top - bottom)
    } else {
        500
    }
}

/// The cells for a run of values: cell `i` stands at `i` and is shaded by
/// the intensity of its value, green a tenth and blue two tenths above red.
pub open spec fn cells_of(values: Seq<i128>) -> Seq<HeatCell> {
    Seq::new(
        values.len(),
        |i: int|
            HeatCell {
                index: i as usize,
                value: values[i],
                color: shade(
                    intensity_of(values[i] as int, scale_bottom(values), scale_top(values)),
                    11,
                    12,
                ),
            },
    )
}

/// Why a heatmap cannot be laid out: the x, y and z columns are looked up in
/// this order.
pub open spec fn heatmap_error(table: FrameView, config: &ChartConfig) -> Option<RenderError> {
    let t = ChartType::Heatmap;
    if resolved(table, config.x, t, Binding::X) is Err {
        Some(resolved(table, config.x, t, Binding::X)->Err_0)
    } else if resolved(table, config.y, t, Binding::Y) is Err {
        Some(resolved(table, config.y, t, Binding::Y)->Err_0)
    } else if resolved(table, config.z, t, Binding::Z) is Err {
        Some(resolved(table, config.z, t, Binding::Z)->Err_0)
    } else {
        None
    }
}

/// The values of the cells of a heatmap: for each of the first hundred rows
/// the quantity of its z cell, or zero where that cell is not a number.
pub open spec fn heat_values(table: FrameView, config: &ChartConfig) -> Seq<i128> {
    plotted_cells(
        table.column(bound_text(config.z)),
        sampled(table.height(), MAX_HEAT_ROWS as nat),
    )
}

/// The intensity of every value lies between nothing and full; where the
/// values differ, the smallest has no intensity and the largest has full
/// intensity, whatever their signs.
pub proof fn law_intensity_spans_the_values(values: Seq<i128>, i: int)
    requires
        0 <= i < values.len(),
    ensures
        0 <= intensity_of(values[i] as int, scale_bottom(values), scale_top(values)) <= 1000,
        scale_bottom(values) <= values[i] <= scale_top(values),
        scale_top(values) > scale_bottom(values) && values[i] == scale_bottom(values)
            ==> intensity_of(values[i] as int, scale_bottom(values), scale_top(values)) == 0,
        scale_top(values) > scale_bottom(values) && values[i] == scale_top(values)
            ==> intensity_of(values[i] as int, scale_bottom(values), scale_top(values)) == 1000,
        scale_top(values) == scale_bottom(values) ==> intensity_of(
            values[i] as int,
            scale_bottom(values),
            scale_top(values),
        ) == 500,
{
    lemma_max_from(values[0] as int, values);
    lemma_min_from(values[0] as int, values);
    let top = scale_top(values);
    let bottom = scale_bottom(values);
    assert(bottom <= values[0] <= top);
    if top > bottom {
        let span = top - bottom;
        let above = values[i] - bottom;
        vstd::arithmetic::div_mod::lemma_div_is_ordered(above * 1000, span * 1000, span);
        vstd::arithmetic::div_mod::lemma_div_multiples_vanish(1000, span);
        vstd::arithmetic::div_mod::lemma_div_pos_is_pos(above * 1000, span);
        assert(span * 1000 == 1000 * span);
    }
}

/// Whether `plan` is the heatmap of the table: one cell for each of the
/// first hundred rows, cell `i` for row `i`.
pub open spec fn is_heatmap_plan(
    plan: &HeatmapPlan,
    table: FrameView,
    config: &ChartConfig,
    title: Seq<char>,
) -> bool {
    &&& plan.title@ == title
    &&& plan.x_label@ == bound_text(config.x)
    &&& plan.y_label@ == bound_text(config.y)
    &&& plan.z_label@ == bound_text(config.z)
    &&& plan.cells@ == cells_of(heat_values(table, config))
}

fn build_cells(values: &Vec<i128>) -> (cells: Vec<HeatCell>)
    requires
        within_limit(values@),
    ensures
        cells@ == cells_of(values@),
{
    let mut cells: Vec<HeatCell> = Vec::new();
    if values.len() == 0 {
        assert(cells@ =~= cells_of(values@));
        return cells;
    }
    let top: i128 = max_of(values[0], values);
    let bottom: i128 = min_of(values[0], values);
    proof {
        lemma_max_from(values@[0] as int, values@);
        lemma_min_from(values@[0] as int, values@);
    }
    let mut i: usize = 0;
    while i < values.len()
        invariant
            within_limit(values@),
            values@.len() > 0,
            i <= values.len(),
            top == scale_top(values@),
            bottom == scale_bottom(values@),
            -MEASURE_LIMIT <= bottom <= top <= MEASURE_LIMIT,
            forall|k: int| 0 <= k < values@.len() ==> bottom <= #[trigger] values@[k] <= top,
            cells@.len() == i,
            forall|k: int| 0 <= k < i ==> #[trigger] cells@[k] == cells_of(values@)[k],
        decreases values.len() - i,
    {
        let value: i128 = values[i];
        let intensity: i128 = if top > bottom {
            let span: i128 = top - bottom;
            let above: i128 = value - bottom;
            assert(0 <= above * 1000 <= span * 1000);
            let q: i128 = floor_div(above * 1000, span);
            proof {
                vstd::arithmetic::div_mod::lemma_div_is_ordered(
                    above * 1000,
                    span * 1000,
                    span as int,
                );
                vstd::arithmetic::div_mod::lemma_div_multiples_vanish(1000, span as int);
                vstd::arithmetic::div_mod::lemma_div_pos_is_pos(above * 1000, span as int);
                assert(span * 1000 == 1000 * span);
            }
            q
        } else {
            500
        };
        cells.push(HeatCell { index: i, value, color: shade_color(intensity, 11, 12) });
        i += 1;
    }
    assert(cells@ =~= cells_of(values@));
    cells
}

/// What `render` owes for a table and a declaration: the failure, nothing to
/// draw, or the plan of the chart.
pub open spec fn renders(
    r: Result<Option<HeatmapOutcome>, RenderError>,
    table: FrameView,
    config: &ChartConfig,
    surface: Surface,
    title: Seq<char>,
    style: &ChartStyle,
) -> bool {
    &&& config.z is None ==> match r {
        Err(e) => series_error(table, config, ChartType::Bar) == Some(e),
        Ok(None) => series_error(table, config, ChartType::Bar) is None && table.height()
            == 0,
        Ok(Some(HeatmapOutcome::Bars(plan))) => series_error(table, config, ChartType::Bar)
            is None && table.height() > 0 && is_bar_plan(
            &plan,
            table,
            config,
            title,
            style.colors.primary@,
        ),
        Ok(Some(HeatmapOutcome::Cells(_))) => false,
    }
    &&& config.z is Some ==> match r {
        Err(e) => heatmap_error(table, config) == Some(e),
        Ok(None) => heatmap_error(table, config) is None && table.height() == 0,
        Ok(Some(HeatmapOutcome::Cells(plan))) => heatmap_error(table, config) is None
            && table.height() > 0 && is_heatmap_plan(
            &plan,
            table,
            config,
            title,
        ),
        Ok(Some(HeatmapOutcome::Bars(_))) => false,
    }
}

/// Lays out a heatmap. A declaration that binds no z gives the bar chart of
/// the table instead. Else the first hundred rows are read; every row gives
/// one cell, the cells standing along the diagonal in row order. The value
/// of a cell is the quantity of the row's z, or zero where that is not a
/// number; the cell is shaded by where its value lies between the smallest
/// value and the largest, and by a half where all values are the same. A
/// table without rows gives nothing to draw.
pub fn render(
    frame: &Frame,
    config: &ChartConfig,
    surface: &Surface,
    title: &str,
    legend_position: &LegendPosition,
    style: &ChartStyle,
) -> (r: Result<Option<HeatmapOutcome>, RenderError>)
    ensures
        renders(r, frame@, config, *surface, title@, style),
{
    if config.z.is_none() {
        return match crate::chart::bar::render(
            frame,
            config,
            surface,
            title,
            legend_position,
            style,
        ) {
            Err(e) => Err(e),
            Ok(None) => Ok(None),
            Ok(Some(plan)) => Ok(Some(HeatmapOutcome::Bars(plan))),
        };
    }
    let t: ChartType = ChartType::Heatmap;
    if let Err(e) = resolve(frame, &config.x, t, Binding::X) {
        return Err(e);
    }
    if let Err(e) = resolve(frame, &config.y, t, Binding::Y) {
        return Err(e);
    }
    let z: usize = match resolve(frame, &config.z, t, Binding::Z) {
        Ok(c) => c,
        Err(e) => {
            return Err(e);
        },
    };
    let height: usize = frame.height();
    let n: usize = if height < MAX_HEAT_ROWS {
        height
    } else {
        MAX_HEAT_ROWS
    };
    let values: Vec<i128> = read_plotted(frame, z, n);
    if values.len() == 0 {
        return Ok(None);
    }
    Ok(
        Some(
            HeatmapOutcome::Cells(
                HeatmapPlan {
                    title: String::from_str(title),
                    x_label: bound_string(&config.x),
                    y_label: bound_string(&config.y),
                    z_label: bound_string(&config.z),
                    cells: build_cells(&values),
                },
            ),
        ),
    )
}

} // verus!
