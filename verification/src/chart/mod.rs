//! The geometry of each chart kind: what to draw for a table and a
//! declaration, as plain values that a drawing backend can put on a surface.

pub mod area;
pub mod bar;
pub mod bar_stacked;
pub mod funnel;
pub mod heatmap;
pub mod retention;
pub mod scatter;
pub mod line;

use vstd::prelude::*;
use vstd::string::*;
use crate::chart_spec::{chart_type_name, ChartType};
use crate::chart_spec::ChartConfig;
use crate::frame::{label_of, CellView, Frame, FrameView};
use crate::measure::{floor_div, plotted_cells, read_plotted, sampled, within_limit};
use crate::styling::{get_heatmap_style, heatmap_metrics, HeatmapStyle, Rgb};
use crate::sorting::texts_view;
pub use crate::sorting::{strings_of, strings_view};
use crate::text::{chars_of, nat_text, push_nat, push_str, string_of};

verus! {

/// The size of a drawing surface, in pixels.
#[derive(Debug, Clone, Copy, PartialEq, Eq, Structural)]
pub struct Surface {
    pub width: u32,
    pub height: u32,
}

/// What a chart binds to a column or a list of the declaration.
#[derive(Debug, Clone, Copy, PartialEq, Eq, Structural)]
pub enum Binding {
    X,
    Y,
    Z,
    GroupBy,
    Value,
    Steps,
    Values,
    CohortDate,
    PeriodNumber,
    Users,
}

/// Why a chart cannot be laid out.
#[derive(Debug, Clone, Copy, PartialEq, Eq, Structural)]
pub enum RenderError {
    /// The declaration lacks a field that the chart kind needs.
    MissingField { chart_type: ChartType, field: Binding },
    /// The table has no column of the name that the declaration binds.
    ColumnNotFound { column: Binding },
    /// The step order does not list as many positions as there are steps.
    StepOrderLength { given: usize, steps: usize },
    /// The step order holds a position at or past the number of steps.
    StepOrderIndex { index: usize, steps: usize },
}

/// The name of a field of the declaration.
pub open spec fn field_name(field: Binding) -> Seq<char> {
    match field {
        Binding::X => "x"@,
        Binding::Y => "y"@,
        Binding::Z => "z"@,
        Binding::GroupBy => "group_by"@,
        Binding::Value => "y"@,
        Binding::Steps => "steps"@,
        Binding::Values => "values"@,
        Binding::CohortDate => "cohort_date"@,
        Binding::PeriodNumber => "period_number"@,
        Binding::Users => "users"@,
    }
}

/// The name of a column's role as a message gives it.
pub open spec fn role_name(column: Binding) -> Seq<char> {
    match column {
        Binding::X => "X"@,
        Binding::Y => "Y"@,
        Binding::Z => "Z"@,
        Binding::GroupBy => "Group"@,
        Binding::Value => "Value"@,
        Binding::Steps => "Steps"@,
        Binding::Values => "Values"@,
        Binding::CohortDate => "Cohort date"@,
        Binding::PeriodNumber => "Period number"@,
        Binding::Users => "Users"@,
    }
}

/// The name of a chart kind as a sentence names it.
pub open spec fn kind_phrase(t: ChartType) -> Seq<char> {
    match t {
        ChartType::BarStacked => "Stacked bar"@,
        _ => chart_type_name(t),
    }
}

impl Binding {
    fn field(&self) -> (s: &'static str)
        ensures
            s@ == field_name(*self),
    {
        match self {
            Binding::X => "x",
            Binding::Y => "y",
            Binding::Z => "z",
            Binding::GroupBy => "group_by",
            Binding::Value => "y",
            Binding::Steps => "steps",
            Binding::Values => "values",
            Binding::CohortDate => "cohort_date",
            Binding::PeriodNumber => "period_number",
            Binding::Users => "users",
        }
    }

    fn role(&self) -> (s: &'static str)
        ensures
            s@ == role_name(*self),
    {
        match self {
            Binding::X => "X",
            Binding::Y => "Y",
            Binding::Z => "Z",
            Binding::GroupBy => "Group",
            Binding::Value => "Value",
            Binding::Steps => "Steps",
            Binding::Values => "Values",
            Binding::CohortDate => "Cohort date",
            Binding::PeriodNumber => "Period number",
            Binding::Users => "Users",
        }
    }
}

impl RenderError {
    /// The message of the error as a character sequence.
    pub open spec fn text(self) -> Seq<char> {
        match self {
            RenderError::MissingField { chart_type, field } => kind_phrase(chart_type)
                + " charts require a '"@ + field_name(field) + "' field"@,
            RenderError::ColumnNotFound { column } => role_name(column) + " column not found"@,
            RenderError::StepOrderLength { given, steps } => "Step order length ("@ + nat_text(
                given as nat,
            ) + ") must match number of steps ("@ + nat_text(steps as nat) + ")"@,
            RenderError::StepOrderIndex { index, steps } => "Invalid step order index: "@
                + nat_text(index as nat) + " (max: "@ + nat_text(
                if steps == 0 {
                    0nat
                } else {
                    (steps - 1) as nat
                },
            ) + ")"@,
        }
    }

    /// The message that reports the error.
    pub fn message(&self) -> (s: String)
        ensures
            s@ == self.text(),
    {
        let mut out: Vec<char> = Vec::new();
        match self {
            RenderError::MissingField { chart_type, field } => {
                match chart_type {
                    ChartType::BarStacked => push_str(&mut out, "Stacked bar"),
                    _ => push_str(&mut out, chart_type.name()),
                }
                push_str(&mut out, " charts require a '");
                push_str(&mut out, field.field());
                push_str(&mut out, "' field");
            },
            RenderError::ColumnNotFound { column } => {
                push_str(&mut out, column.role());
                push_str(&mut out, " column not found");
            },
            RenderError::StepOrderLength { given, steps } => {
                push_str(&mut out, "Step order length (");
                push_nat(&mut out, *given as u128);
                push_str(&mut out, ") must match number of steps (");
                push_nat(&mut out, *steps as u128);
                push_str(&mut out, ")");
            },
            RenderError::StepOrderIndex { index, steps } => {
                push_str(&mut out, "Invalid step order index: ");
                push_nat(&mut out, *index as u128);
                push_str(&mut out, " (max: ");
                let top: usize = if *steps == 0 {
                    0
                } else {
                    *steps - 1
                };
                push_nat(&mut out, top as u128);
                push_str(&mut out, ")");
            },
        }
        assert(out@ =~= self.text());
        string_of(&out)
    }
}

/// The column that a binding names: its position in the table, or why there
/// is none.
pub open spec fn resolved(
    table: FrameView,
    binding: Option<String>,
    chart_type: ChartType,
    role: Binding,
) -> Result<int, RenderError> {
    match binding {
        None => Err(RenderError::MissingField { chart_type, field: role }),
        Some(name) => if table.has(name@) {
            Ok(table.position(name@))
        } else {
            Err(RenderError::ColumnNotFound { column: role })
        },
    }
}

/// Finds the column that a binding names.
pub fn resolve(frame: &Frame, binding: &Option<String>, chart_type: ChartType, role: Binding) -> (r:
    Result<usize, RenderError>)
    ensures
        match r {
            Ok(c) => resolved(frame@, *binding, chart_type, role) == Ok::<int, RenderError>(
                c as int,
            ) && c < frame@.names.len(),
            Err(e) => resolved(frame@, *binding, chart_type, role) == Err::<int, RenderError>(e),
        },
{
    match binding {
        None => Err(RenderError::MissingField { chart_type, field: role }),
        Some(name) => match frame.find_column(name) {
            Some(c) => Ok(c),
            None => Err(RenderError::ColumnNotFound { column: role }),
        },
    }
}

/// The text of an optional binding; empty where there is none.
pub open spec fn bound_text(binding: Option<String>) -> Seq<char> {
    match binding {
        Some(s) => s@,
        None => Seq::empty(),
    }
}

/// A copy of the text of an optional binding; empty where there is none.
pub fn bound_string(binding: &Option<String>) -> (s: String)
    ensures
        s@ == bound_text(*binding),
{
    match binding {
        Some(name) => name.clone(),
        None => String::new(),
    }
}


/// The colour of the palette for the item at `index`: the colours repeat in
/// a cycle, and a palette without colours gives black.
pub open spec fn cycle_color(palette: Seq<Rgb>, index: int) -> Rgb {
    if palette.len() > 0 {
        palette[index % palette.len() as int]
    } else {
        Rgb { r: 0, g: 0, b: 0 }
    }
}

/// A point of a chart, both coordinates in thousandths.
#[derive(Debug, Clone, Copy, PartialEq, Eq, Structural)]
pub struct Point {
    pub x: i128,
    pub y: i128,
}

/// The column that names the items of a series: the group column where the
/// declaration groups, else the x column.
pub open spec fn label_binding(config: &ChartConfig) -> Option<String> {
    if config.group_by is Some {
        config.group_by
    } else {
        config.x
    }
}

/// Why the series of a chart cannot be read: the label column is looked up
/// first, then the value column.
pub open spec fn series_error(table: FrameView, config: &ChartConfig, chart_type: ChartType) -> Option<
    RenderError,
> {
    let labels = if config.group_by is Some {
        resolved(table, config.group_by, chart_type, Binding::GroupBy)
    } else {
        resolved(table, config.x, chart_type, Binding::X)
    };
    let values = if config.group_by is Some {
        resolved(table, config.y, chart_type, Binding::Value)
    } else {
        resolved(table, config.y, chart_type, Binding::Y)
    };
    if labels is Err {
        Some(labels->Err_0)
    } else if values is Err {
        Some(values->Err_0)
    } else {
        None
    }
}

/// The rows that a series reads: all of them, or the first `cap`.
pub open spec fn series_rows(table: FrameView, cap: Option<usize>) -> nat {
    match cap {
        Some(most) => sampled(table.height(), most as nat),
        None => table.height(),
    }
}

/// The values of a series, in thousandths: the plotted quantities of the
/// value column, row by row.
pub open spec fn series_values(table: FrameView, config: &ChartConfig, cap: Option<usize>) -> Seq<
    i128,
> {
    plotted_cells(table.column(bound_text(config.y)), series_rows(table, cap))
}

/// The series of a chart with its axis names.
#[derive(Debug)]
pub struct Series {
    pub x_label: String,
    pub y_label: String,
    pub values: Vec<i128>,
}

/// Reads the series of a chart: the quantity of each row in the value
/// column, zero where the cell is not a number, for all rows or the first
/// `cap`.
pub fn read_series(frame: &Frame, config: &ChartConfig, chart_type: ChartType, cap: Option<usize>) -> (r:
    Result<Series, RenderError>)
    ensures
        match r {
            Err(e) => series_error(frame@, config, chart_type) == Some(e),
            Ok(series) => {
                &&& series_error(frame@, config, chart_type) is None
                &&& series.x_label@ == bound_text(label_binding(config))
                &&& series.y_label@ == bound_text(config.y)
                &&& series.values@ == series_values(frame@, config, cap)
                &&& within_limit(series.values@)
            },
        },
{
    let grouped: bool = config.group_by.is_some();
    let labels: Result<usize, RenderError> = if grouped {
        resolve(frame, &config.group_by, chart_type, Binding::GroupBy)
    } else {
        resolve(frame, &config.x, chart_type, Binding::X)
    };
    if let Err(e) = labels {
        return Err(e);
    }
    let values: Result<usize, RenderError> = if grouped {
        resolve(frame, &config.y, chart_type, Binding::Value)
    } else {
        resolve(frame, &config.y, chart_type, Binding::Y)
    };
    let y: usize = match values {
        Ok(c) => c,
        Err(e) => {
            return Err(e);
        },
    };
    let height: usize = frame.height();
    let n: usize = match cap {
        Some(most) => if height < most {
            height
        } else {
            most
        },
        None => height,
    };
    let x_label: String = if grouped {
        bound_string(&config.group_by)
    } else {
        bound_string(&config.x)
    };
    Ok(Series { x_label, y_label: bound_string(&config.y), values: read_plotted(frame, y, n) })
}

/// The points of a series: point `i` stands at `i` on the x axis.
pub open spec fn points_of(values: Seq<i128>) -> Seq<Point> {
    Seq::new(values.len(), |i: int| Point { x: (i * 1000) as i128, y: values[i] })
}

/// The points of a series: point `i` stands at `i` on the x axis.
pub fn series_points(values: &Vec<i128>) -> (points: Vec<Point>)
    ensures
        points@ == points_of(values@),
{
    let mut points: Vec<Point> = Vec::new();
    let mut i: usize = 0;
    while i < values.len()
        invariant
            i <= values.len(),
            points@.len() == i,
            forall|k: int| 0 <= k < i ==> #[trigger] points@[k] == points_of(values@)[k],
        decreases values.len() - i,
    {
        points.push(Point { x: (i as i128) * 1000, y: values[i] });
        i += 1;
    }
    assert(points@ =~= points_of(values@));
    points
}


/// The labels of the first `n` cells of a column.
pub open spec fn labels_of(cells: Seq<CellView>, n: nat) -> Seq<Seq<char>> {
    Seq::new(n, |i: int| label_of(cells[i]))
}

/// The labels of the first `n` rows of column `c`.
pub fn read_labels(frame: &Frame, c: usize, n: usize) -> (labels: Vec<Vec<char>>)
    requires
        c < frame@.names.len(),
        n <= frame@.height(),
    ensures
        labels@.len() == n,
        texts_view(labels@) == labels_of(frame@.cells[c as int], n as nat),
{
    let mut labels: Vec<Vec<char>> = Vec::new();
    let mut i: usize = 0;
    while i < n
        invariant
            c < frame@.names.len(),
            n <= frame@.height(),
            i <= n,
            labels@.len() == i,
            forall|k: int|
                0 <= k < i ==> (#[trigger] labels@[k])@ == label_of(frame@.cells[c as int][k]),
        decreases n - i,
    {
        let label: String = frame.cell(c, i).label();
        labels.push(chars_of(label.as_str()));
        i += 1;
    }
    assert(texts_view(labels@) =~= labels_of(frame@.cells[c as int], n as nat));
    labels
}

/// A colour part for a quantity: the quantity itself from 0 to 255, and the
/// nearer end of that range for a quantity outside it.
pub open spec fn channel(v: int) -> u8 {
    if v < 0 {
        0
    } else if v > 255 {
        255
    } else {
        v as u8
    }
}

/// The grey level of a cell, in thousandths, for an intensity in thousandths:
/// the low end of the intensity range of the heatmap style for no intensity,
/// its high end for full intensity.
pub open spec fn shade_level(intensity: int) -> int {
    heatmap_metrics().intensity_range.0 * 1000 + intensity * (
    heatmap_metrics().intensity_range.1 - heatmap_metrics().intensity_range.0)
}

/// The colour of a cell for an intensity in thousandths: red is the grey
/// level, green and blue are the grey level times the given tenths.
pub open spec fn shade(intensity: int, green_tenths: int, blue_tenths: int) -> Rgb {
    Rgb {
        r: channel(shade_level(intensity) / 1000),
        g: channel(shade_level(intensity) * green_tenths / 10_000),
        b: channel(shade_level(intensity) * blue_tenths / 10_000),
    }
}

fn to_channel(v: i128) -> (c: u8)
    ensures
        c == channel(v as int),
{
    if v < 0 {
        0
    } else if v > 255 {
        255
    } else {
        v as u8
    }
}

/// The largest magnitude of an intensity that `shade_color` takes.
pub(crate) const INTENSITY_LIMIT: i128 = 10_000_000_000_000_000_000_000_000_000_000;

/// The colour of a cell for an intensity in thousandths.
pub(crate) fn shade_color(intensity: i128, green_tenths: i128, blue_tenths: i128) -> (c: Rgb)
    requires
        -INTENSITY_LIMIT <= intensity <= INTENSITY_LIMIT,
        0 <= green_tenths <= 20,
        0 <= blue_tenths <= 20,
    ensures
        c == shade(intensity as int, green_tenths as int, blue_tenths as int),
{
    let style: HeatmapStyle = get_heatmap_style();
    let low: i128 = style.intensity_range.0 as i128;
    let high: i128 = style.intensity_range.1 as i128;
    let level: i128 = low * 1000 + intensity * (high - low);
    assert(-2_500 * INTENSITY_LIMIT <= level * green_tenths <= 2_500 * INTENSITY_LIMIT)
        by (nonlinear_arith)
        requires
            -121 * INTENSITY_LIMIT <= level <= 121 * INTENSITY_LIMIT,
            0 <= green_tenths <= 20,
    ;
    assert(-2_500 * INTENSITY_LIMIT <= level * blue_tenths <= 2_500 * INTENSITY_LIMIT)
        by (nonlinear_arith)
        requires
            -121 * INTENSITY_LIMIT <= level <= 121 * INTENSITY_LIMIT,
            0 <= blue_tenths <= 20,
    ;
    Rgb {
        r: to_channel(floor_div(level, 1000)),
        g: to_channel(floor_div(level * green_tenths, 10_000)),
        b: to_channel(floor_div(level * blue_tenths, 10_000)),
    }
}

} // verus!
