//! The declaration of a chart and the rules that a declaration must meet
//! before anything is loaded or drawn.

use vstd::prelude::*;
use vstd::string::*;
use crate::text::{blank_chars, chars_of, is_blank, nat_text, push_nat, push_str, push_thousandths, string_of, thousandths_text};

verus! {

/// The kind of chart to draw.
#[derive(Debug, Clone, Copy, PartialEq, Eq, Structural)]
pub enum ChartType {
    Line,
    Area,
    Bar,
    BarStacked,
    Heatmap,
    Scatter,
    Funnel,
    Retention,
}

/// How the rows of one group are folded into one value.
#[derive(Debug, Clone, Copy, PartialEq, Eq, Structural)]
pub enum AggregationType {
    Sum,
    Count,
    Mean,
    Median,
    Min,
    Max,
}

/// The colour scheme of a chart.
#[derive(Debug, Clone, Copy, PartialEq, Eq, Structural)]
pub enum Theme {
    Light,
    Dark,
}

/// The file format of the image.
#[derive(Debug, Clone, Copy, PartialEq, Eq, Structural)]
pub enum OutputFormat {
    Png,
    Svg,
    Pdf,
}

/// The side of the surface on which the legend stands.
#[derive(Debug, Clone, Copy, PartialEq, Eq, Structural)]
pub enum LegendPosition {
    Top,
    Bottom,
    Left,
    Right,
}

/// The side of a funnel segment on which its label stands.
#[derive(Debug, Clone, Copy, PartialEq, Eq, Structural)]
pub enum ValueLabelPosition {
    Left,
    Right,
}

/// The colour ramp of a heatmap.
#[derive(Debug, Clone, Copy, PartialEq, Eq, Structural)]
pub enum ColorMap {
    Viridis,
    Plasma,
    Blues,
    Reds,
    Greens,
}

/// What a filter compares a column with: one value, or any value of a list.
#[derive(Debug)]
pub enum FilterValue {
    Single(String),
    Multiple(Vec<String>),
}

/// The rows to keep and to drop. `includes` and `exclude` pair a column name
/// with the values to compare with, in the order in which they were declared;
/// `expression` is free text that is accepted and not evaluated.
#[derive(Debug)]
pub struct FilterConfig {
    pub includes: Option<Vec<(String, FilterValue)>>,
    pub exclude: Option<Vec<(String, FilterValue)>>,
    pub expression: Option<String>,
}

/// One sort key: a column, and whether it ascends (the default).
#[derive(Debug)]
pub struct SortConfig {
    pub column: String,
    pub ascending: Option<bool>,
}

/// Where the data of a set of charts comes from: a default path and named paths.
#[derive(Debug)]
pub struct DataConfig {
    pub default: Option<String>,
    pub sources: Option<Vec<(String, String)>>,
}

/// The full declaration of one chart. `scale` is in thousandths, so `1000`
/// stands for a scale of one; `derive` pairs the name of a new column with
/// the expression that computes it.
#[derive(Debug)]
pub struct ChartConfig {
    pub chart_type: ChartType,
    pub title: Option<String>,
    pub data: Option<String>,
    pub x: Option<String>,
    pub y: Option<String>,
    pub z: Option<String>,
    pub group_by: Option<String>,
    pub agg: Option<AggregationType>,
    pub filter: Option<FilterConfig>,
    pub derive: Option<Vec<(String, String)>>,
    pub sort: Option<Vec<SortConfig>>,
    pub limit: Option<usize>,
    pub width: Option<u32>,
    pub height: Option<u32>,
    pub theme: Option<Theme>,
    pub format: Option<OutputFormat>,
    pub scale: Option<i64>,
    pub stacked: Option<bool>,
    pub horizontal: Option<bool>,
    pub normalize: Option<bool>,
    pub bins: Option<u32>,
    pub colormap: Option<ColorMap>,
    pub steps: Option<Vec<String>>,
    pub step_order: Option<Vec<usize>>,
    pub value_labels: Option<ValueLabelPosition>,
    pub values: Option<String>,
    pub conversion_rates: Option<bool>,
    pub cohort_date: Option<String>,
    pub period_number: Option<String>,
    pub users: Option<String>,
    pub percentage: Option<bool>,
    pub legend_position: Option<LegendPosition>,
}

/// An ordered list of charts with the data they share.
#[derive(Debug)]
pub struct ChartSpec {
    pub data: Option<DataConfig>,
    pub charts: Vec<ChartConfig>,
}

/// A field that a chart kind cannot do without.
#[derive(Debug, Clone, Copy, PartialEq, Eq, Structural)]
pub enum RequiredField {
    X,
    Y,
    Z,
    Steps,
    Values,
    CohortDate,
    PeriodNumber,
    Users,
}

/// The rule that a declaration breaks.
#[derive(Debug, PartialEq, Eq)]
pub enum ValidationError {
    MissingField { chart_type: ChartType, field: RequiredField },
    WidthOutOfRange(u32),
    HeightOutOfRange(u32),
    ScaleOutOfRange(i64),
    BinsOutOfRange(u32),
    FilterWithoutCondition,
    EmptyFilterColumn,
    EmptyFilterValue { column: String },
    EmptyFilterValues { column: String },
    BlankFilterExpression,
}

/// A broken rule, with its texts as character sequences.
pub enum Violation {
    MissingField { chart_type: ChartType, field: RequiredField },
    WidthOutOfRange(u32),
    HeightOutOfRange(u32),
    ScaleOutOfRange(i64),
    BinsOutOfRange(u32),
    FilterWithoutCondition,
    EmptyFilterColumn,
    EmptyFilterValue { column: Seq<char> },
    EmptyFilterValues { column: Seq<char> },
    BlankFilterExpression,
}

impl View for ValidationError {
    type V = Violation;

    open spec fn view(&self) -> Violation {
        match *self {
            ValidationError::MissingField { chart_type, field } => Violation::MissingField {
                chart_type,
                field,
            },
            ValidationError::WidthOutOfRange(got) => Violation::WidthOutOfRange(got),
            ValidationError::HeightOutOfRange(got) => Violation::HeightOutOfRange(got),
            ValidationError::ScaleOutOfRange(got) => Violation::ScaleOutOfRange(got),
            ValidationError::BinsOutOfRange(got) => Violation::BinsOutOfRange(got),
            ValidationError::FilterWithoutCondition => Violation::FilterWithoutCondition,
            ValidationError::EmptyFilterColumn => Violation::EmptyFilterColumn,
            ValidationError::EmptyFilterValue { column } => Violation::EmptyFilterValue {
                column: column@,
            },
            ValidationError::EmptyFilterValues { column } => Violation::EmptyFilterValues {
                column: column@,
            },
            ValidationError::BlankFilterExpression => Violation::BlankFilterExpression,
        }
    }
}

/// The smallest width and height of a chart, in pixels.
pub const MIN_DIMENSION: u32 = 100;

/// The largest width and height of a chart, in pixels.
pub const MAX_DIMENSION: u32 = 10000;

/// The largest scale, in thousandths.
pub const MAX_SCALE: i64 = 10000;

/// The smallest number of heatmap bins.
pub const MIN_BINS: u32 = 2;

/// The largest number of heatmap bins.
pub const MAX_BINS: u32 = 100;

/// The name of a chart kind as it appears in messages and file names.
pub open spec fn chart_type_name(t: ChartType) -> Seq<char> {
    match t {
        ChartType::Line => "Line"@,
        ChartType::Area => "Area"@,
        ChartType::Bar => "Bar"@,
        ChartType::BarStacked => "BarStacked"@,
        ChartType::Heatmap => "Heatmap"@,
        ChartType::Scatter => "Scatter"@,
        ChartType::Funnel => "Funnel"@,
        ChartType::Retention => "Retention"@,
    }
}

impl ChartType {
    /// The name of the kind as it appears in messages and file names.
    pub fn name(&self) -> (s: &'static str)
        ensures
            s@ == chart_type_name(*self),
    {
        match self {
            ChartType::Line => "Line",
            ChartType::Area => "Area",
            ChartType::Bar => "Bar",
            ChartType::BarStacked => "BarStacked",
            ChartType::Heatmap => "Heatmap",
            ChartType::Scatter => "Scatter",
            ChartType::Funnel => "Funnel",
            ChartType::Retention => "Retention",
        }
    }
}

/// The first required field that a declaration of this kind lacks, the
/// fields taken in the order in which the kind lists them.
pub open spec fn missing_field(c: &ChartConfig) -> Option<RequiredField> {
    match c.chart_type {
        ChartType::Heatmap => if c.z is None {
            Some(RequiredField::Z)
        } else {
            None
        },
        ChartType::Funnel => if c.steps is None {
            Some(RequiredField::Steps)
        } else if c.values is None {
            Some(RequiredField::Values)
        } else {
            None
        },
        ChartType::Retention => if c.cohort_date is None {
            Some(RequiredField::CohortDate)
        } else if c.period_number is None {
            Some(RequiredField::PeriodNumber)
        } else if c.users is None {
            Some(RequiredField::Users)
        } else {
            None
        },
        _ => if c.x is None {
            Some(RequiredField::X)
        } else if c.y is None {
            Some(RequiredField::Y)
        } else {
            None
        },
    }
}

/// The first numeric bound that a declaration breaks: width, height, scale,
/// bins, in this order.
pub open spec fn bound_violation(c: &ChartConfig) -> Option<Violation> {
    if c.width is Some && !(MIN_DIMENSION <= c.width->0 <= MAX_DIMENSION) {
        Some(Violation::WidthOutOfRange(c.width->0))
    } else if c.height is Some && !(MIN_DIMENSION <= c.height->0 <= MAX_DIMENSION) {
        Some(Violation::HeightOutOfRange(c.height->0))
    } else if c.scale is Some && !(0 < c.scale->0 <= MAX_SCALE) {
        Some(Violation::ScaleOutOfRange(c.scale->0))
    } else if c.bins is Some && !(MIN_BINS <= c.bins->0 <= MAX_BINS) {
        Some(Violation::BinsOutOfRange(c.bins->0))
    } else {
        None
    }
}

/// Whether one of the texts is empty.
pub open spec fn has_empty_text(values: Seq<String>) -> bool {
    exists|j: int| 0 <= j < values.len() && (#[trigger] values[j])@.len() == 0
}

/// The rule that one filter entry breaks: its column name is checked first,
/// then its value or list of values.
pub open spec fn entry_violation(entry: (String, FilterValue)) -> Option<Violation> {
    if entry.0@.len() == 0 {
        Some(Violation::EmptyFilterColumn)
    } else {
        match entry.1 {
            FilterValue::Single(value) => if value@.len() == 0 {
                Some(Violation::EmptyFilterValue { column: entry.0@ })
            } else {
                None
            },
            FilterValue::Multiple(values) => if values@.len() == 0 {
                Some(Violation::EmptyFilterValues { column: entry.0@ })
            } else if has_empty_text(values@) {
                Some(Violation::EmptyFilterValue { column: entry.0@ })
            } else {
                None
            },
        }
    }
}

/// The rule that the first faulty entry of a list breaks.
pub open spec fn entries_violation(entries: Seq<(String, FilterValue)>) -> Option<Violation>
    decreases entries.len(),
{
    if entries.len() == 0 {
        None
    } else if entry_violation(entries[0]) is Some {
        entry_violation(entries[0])
    } else {
        entries_violation(entries.drop_first())
    }
}

/// The entries of an optional list; none where the list is absent.
pub open spec fn entries_of(list: Option<Vec<(String, FilterValue)>>) -> Seq<(String, FilterValue)> {
    match list {
        Some(v) => v@,
        None => Seq::empty(),
    }
}

/// The rule that a filter breaks: it must hold a condition; then the include
/// entries are checked in order, then the exclude entries, then the expression.
pub open spec fn filter_violation(f: &FilterConfig) -> Option<Violation> {
    if entries_of(f.includes).len() == 0 && entries_of(f.exclude).len() == 0 && f.expression is None {
        Some(Violation::FilterWithoutCondition)
    } else if entries_violation(entries_of(f.includes)) is Some {
        entries_violation(entries_of(f.includes))
    } else if entries_violation(entries_of(f.exclude)) is Some {
        entries_violation(entries_of(f.exclude))
    } else if f.expression is Some && is_blank(f.expression->0@) {
        Some(Violation::BlankFilterExpression)
    } else {
        None
    }
}

/// The first rule that a declaration breaks: required fields, then numeric
/// bounds, then the filter.
pub open spec fn first_violation(c: &ChartConfig) -> Option<Violation> {
    if missing_field(c) is Some {
        Some(Violation::MissingField { chart_type: c.chart_type, field: missing_field(c)->0 })
    } else if bound_violation(c) is Some {
        bound_violation(c)
    } else if c.filter is Some {
        filter_violation(&c.filter->0)
    } else {
        None
    }
}

/// The sentence that names a missing field.
pub open spec fn missing_field_text(chart_type: ChartType, field: RequiredField) -> Seq<char> {
    match field {
        RequiredField::Z => "Heatmap charts require a 'z' field for color intensity values"@,
        RequiredField::Steps => "Funnel charts require a 'steps' field with step names"@,
        RequiredField::Values => "Funnel charts require a 'values' field for step values"@,
        RequiredField::CohortDate => "Retention charts require a 'cohort_date' field"@,
        RequiredField::PeriodNumber => "Retention charts require a 'period_number' field"@,
        RequiredField::Users => "Retention charts require a 'users' field"@,
        RequiredField::X => chart_type_name(chart_type) + " charts require an 'x' field"@,
        RequiredField::Y => chart_type_name(chart_type) + " charts require a 'y' field"@,
    }
}

impl Violation {
    /// The message that reports the broken rule: it names the field and, for
    /// a bound, the value found and the range allowed.
    pub open spec fn text(self) -> Seq<char> {
        match self {
            Violation::MissingField { chart_type, field } => missing_field_text(chart_type, field),
            Violation::WidthOutOfRange(got) =>
                "Chart width must be between 100 and 10000 pixels, got "@ + nat_text(got as nat),
            Violation::HeightOutOfRange(got) =>
                "Chart height must be between 100 and 10000 pixels, got "@ + nat_text(got as nat),
            Violation::ScaleOutOfRange(got) =>
                "Chart scale must be between 0.1 and 10.0, got "@ + thousandths_text(got as int),
            Violation::BinsOutOfRange(got) =>
                "Heatmap bins must be between 2 and 100, got "@ + nat_text(got as nat),
            Violation::FilterWithoutCondition =>
                "Filter configuration must have at least one condition (include, exclude, or expression)"@,
            Violation::EmptyFilterColumn => "Filter column name cannot be empty"@,
            Violation::EmptyFilterValue { column } =>
                "Filter value cannot be empty for column '"@ + column + "'"@,
            Violation::EmptyFilterValues { column } =>
                "Filter values list cannot be empty for column '"@ + column + "'"@,
            Violation::BlankFilterExpression => "Filter expression cannot be empty"@,
        }
    }
}

impl ValidationError {
    /// The message that reports the broken rule.
    pub fn message(&self) -> (s: String)
        ensures
            s@ == self@.text(),
    {
        let mut out: Vec<char> = Vec::new();
        match self {
            ValidationError::MissingField { chart_type, field } => {
                match field {
                    RequiredField::Z => push_str(
                        &mut out,
                        "Heatmap charts require a 'z' field for color intensity values",
                    ),
                    RequiredField::Steps => push_str(
                        &mut out,
                        "Funnel charts require a 'steps' field with step names",
                    ),
                    RequiredField::Values => push_str(
                        &mut out,
                        "Funnel charts require a 'values' field for step values",
                    ),
                    RequiredField::CohortDate => push_str(
                        &mut out,
                        "Retention charts require a 'cohort_date' field",
                    ),
                    RequiredField::PeriodNumber => push_str(
                        &mut out,
                        "Retention charts require a 'period_number' field",
                    ),
                    RequiredField::Users => push_str(
                        &mut out,
                        "Retention charts require a 'users' field",
                    ),
                    RequiredField::X => {
                        push_str(&mut out, chart_type.name());
                        push_str(&mut out, " charts require an 'x' field");
                    },
                    RequiredField::Y => {
                        push_str(&mut out, chart_type.name());
                        push_str(&mut out, " charts require a 'y' field");
                    },
                }
            },
            ValidationError::WidthOutOfRange(got) => {
                push_str(&mut out, "Chart width must be between 100 and 10000 pixels, got ");
                push_nat(&mut out, *got as u128);
            },
            ValidationError::HeightOutOfRange(got) => {
                push_str(&mut out, "Chart height must be between 100 and 10000 pixels, got ");
                push_nat(&mut out, *got as u128);
            },
            ValidationError::ScaleOutOfRange(got) => {
                push_str(&mut out, "Chart scale must be between 0.1 and 10.0, got ");
                push_thousandths(&mut out, *got as i128);
            },
            ValidationError::BinsOutOfRange(got) => {
                push_str(&mut out, "Heatmap bins must be between 2 and 100, got ");
                push_nat(&mut out, *got as u128);
            },
            ValidationError::FilterWithoutCondition => push_str(
                &mut out,
                "Filter configuration must have at least one condition (include, exclude, or expression)",
            ),
            ValidationError::EmptyFilterColumn => push_str(
                &mut out,
                "Filter column name cannot be empty",
            ),
            ValidationError::EmptyFilterValue { column } => {
                push_str(&mut out, "Filter value cannot be empty for column '");
                push_str(&mut out, column.as_str());
                push_str(&mut out, "'");
            },
            ValidationError::EmptyFilterValues { column } => {
                push_str(&mut out, "Filter values list cannot be empty for column '");
                push_str(&mut out, column.as_str());
                push_str(&mut out, "'");
            },
            ValidationError::BlankFilterExpression => push_str(
                &mut out,
                "Filter expression cannot be empty",
            ),
        }
        assert(out@ =~= self@.text());
        string_of(&out)
    }
}


/// What `validate` owes for a declaration: success where no rule is broken,
/// else the first broken rule.
pub open spec fn reports(r: Result<(), ValidationError>, expected: Option<Violation>) -> bool {
    match r {
        Ok(_) => expected is None,
        Err(e) => expected == Some(e@),
    }
}

fn check_values(column: &String, values: &Vec<String>) -> (r: Result<(), ValidationError>)
    requires
        column@.len() > 0,
    ensures
        reports(
            r,
            if values@.len() == 0 {
                Some(Violation::EmptyFilterValues { column: column@ })
            } else if has_empty_text(values@) {
                Some(Violation::EmptyFilterValue { column: column@ })
            } else {
                None
            },
        ),
{
    if values.len() == 0 {
        return Err(ValidationError::EmptyFilterValues { column: column.clone() });
    }
    let mut j: usize = 0;
    while j < values.len()
        invariant
            j <= values.len(),
            forall|k: int| 0 <= k < j ==> (#[trigger] values@[k])@.len() != 0,
        decreases values.len() - j,
    {
        if values[j].as_str().is_empty() {
            return Err(ValidationError::EmptyFilterValue { column: column.clone() });
        }
        j += 1;
    }
    Ok(())
}

fn check_entry(entry: &(String, FilterValue)) -> (r: Result<(), ValidationError>)
    ensures
        reports(r, entry_violation(*entry)),
{
    if entry.0.as_str().is_empty() {
        return Err(ValidationError::EmptyFilterColumn);
    }
    match &entry.1 {
        FilterValue::Single(value) => {
            if value.as_str().is_empty() {
                Err(ValidationError::EmptyFilterValue { column: entry.0.clone() })
            } else {
                Ok(())
            }
        },
        FilterValue::Multiple(values) => check_values(&entry.0, values),
    }
}

fn check_entries(entries: &Vec<(String, FilterValue)>) -> (r: Result<(), ValidationError>)
    ensures
        reports(r, entries_violation(entries@)),
{
    let mut i: usize = 0;
    assert(entries@.skip(0) =~= entries@);
    while i < entries.len()
        invariant
            i <= entries.len(),
            entries_violation(entries@) == entries_violation(entries@.skip(i as int)),
        decreases entries.len() - i,
    {
        let checked: Result<(), ValidationError> = check_entry(&entries[i]);
        if checked.is_err() {
            return checked;
        }
        assert(entries@.skip(i as int).drop_first() =~= entries@.skip(i + 1));
        i += 1;
    }
    Ok(())
}

fn check_optional_entries(list: &Option<Vec<(String, FilterValue)>>) -> (r: Result<
    (),
    ValidationError,
>)
    ensures
        reports(r, entries_violation(entries_of(*list))),
{
    match list {
        Some(entries) => check_entries(entries),
        None => Ok(()),
    }
}

fn has_entries(list: &Option<Vec<(String, FilterValue)>>) -> (b: bool)
    ensures
        b == (entries_of(*list).len() > 0),
{
    match list {
        Some(entries) => entries.len() > 0,
        None => false,
    }
}

impl Default for ChartConfig {
    /// A line chart with nothing else declared.
    fn default() -> (c: ChartConfig)
        ensures
            c.chart_type == ChartType::Line,
            c.title is None,
            c.data is None,
            c.x is None,
            c.y is None,
            c.z is None,
            c.group_by is None,
            c.agg is None,
            c.filter is None,
            c.derive is None,
            c.sort is None,
            c.limit is None,
            c.width is None,
            c.height is None,
            c.theme is None,
            c.format is None,
            c.scale is None,
            c.stacked is None,
            c.horizontal is None,
            c.normalize is None,
            c.bins is None,
            c.colormap is None,
            c.steps is None,
            c.step_order is None,
            c.value_labels is None,
            c.values is None,
            c.conversion_rates is None,
            c.cohort_date is None,
            c.period_number is None,
            c.users is None,
            c.percentage is None,
            c.legend_position is None,
    {
        ChartConfig {
            chart_type: ChartType::Line,
            title: None,
            data: None,
            x: None,
            y: None,
            z: None,
            group_by: None,
            agg: None,
            filter: None,
            derive: None,
            sort: None,
            limit: None,
            width: None,
            height: None,
            theme: None,
            format: None,
            scale: None,
            stacked: None,
            horizontal: None,
            normalize: None,
            bins: None,
            colormap: None,
            steps: None,
            step_order: None,
            value_labels: None,
            values: None,
            conversion_rates: None,
            cohort_date: None,
            period_number: None,
            users: None,
            percentage: None,
            legend_position: None,
        }
    }
}

impl ChartConfig {
    fn check_required(&self) -> (r: Option<RequiredField>)
        ensures
            r == missing_field(self),
    {
        match self.chart_type {
            ChartType::Heatmap => {
                if self.z.is_none() {
                    return Some(RequiredField::Z);
                }
            },
            ChartType::Funnel => {
                if self.steps.is_none() {
                    return Some(RequiredField::Steps);
                }
                if self.values.is_none() {
                    return Some(RequiredField::Values);
                }
            },
            ChartType::Retention => {
                if self.cohort_date.is_none() {
                    return Some(RequiredField::CohortDate);
                }
                if self.period_number.is_none() {
                    return Some(RequiredField::PeriodNumber);
                }
                if self.users.is_none() {
                    return Some(RequiredField::Users);
                }
            },
            _ => {
                if self.x.is_none() {
                    return Some(RequiredField::X);
                }
                if self.y.is_none() {
                    return Some(RequiredField::Y);
                }
            },
        }
        None
    }

    fn check_bounds(&self) -> (r: Result<(), ValidationError>)
        ensures
            reports(r, bound_violation(self)),
    {
        if let Some(width) = self.width {
            if width < MIN_DIMENSION || width > MAX_DIMENSION {
                return Err(ValidationError::WidthOutOfRange(width));
            }
        }
        if let Some(height) = self.height {
            if height < MIN_DIMENSION || height > MAX_DIMENSION {
                return Err(ValidationError::HeightOutOfRange(height));
            }
        }
        if let Some(scale) = self.scale {
            if scale <= 0 || scale > MAX_SCALE {
                return Err(ValidationError::ScaleOutOfRange(scale));
            }
        }
        if let Some(bins) = self.bins {
            if bins < MIN_BINS || bins > MAX_BINS {
                return Err(ValidationError::BinsOutOfRange(bins));
            }
        }
        Ok(())
    }

    /// Checks a filter: it holds a condition, every column name and value is
    /// non-empty, and an expression is not blank. The first fault is reported.
    pub fn validate_filter(&self, filter: &FilterConfig) -> (r: Result<(), ValidationError>)
        ensures
            reports(r, filter_violation(filter)),
    {
        let has_includes: bool = has_entries(&filter.includes);
        let has_excludes: bool = has_entries(&filter.exclude);
        if !has_includes && !has_excludes && filter.expression.is_none() {
            return Err(ValidationError::FilterWithoutCondition);
        }
        let included: Result<(), ValidationError> = check_optional_entries(&filter.includes);
        if included.is_err() {
            return included;
        }
        let excluded: Result<(), ValidationError> = check_optional_entries(&filter.exclude);
        if excluded.is_err() {
            return excluded;
        }
        if let Some(expression) = &filter.expression {
            let chars: Vec<char> = chars_of(expression.as_str());
            if blank_chars(&chars) {
                return Err(ValidationError::BlankFilterExpression);
            }
        }
        Ok(())
    }

    /// Checks the declaration against the rules of its chart kind and reports
    /// the first rule that it breaks: a missing required field, then a numeric
    /// bound, then a fault in the filter.
    pub fn validate(&self) -> (r: Result<(), ValidationError>)
        ensures
            reports(r, first_violation(self)),
    {
        if let Some(field) = self.check_required() {
            return Err(ValidationError::MissingField { chart_type: self.chart_type, field });
        }
        let bounds: Result<(), ValidationError> = self.check_bounds();
        if bounds.is_err() {
            return bounds;
        }
        if let Some(filter) = &self.filter {
            return self.validate_filter(filter);
        }
        Ok(())
    }
}

/// A chart of the kinds that need `x` and `y`.
pub open spec fn needs_axes(t: ChartType) -> bool {
    t != ChartType::Heatmap && t != ChartType::Funnel && t != ChartType::Retention
}

/// A declaration that lacks a field its kind requires fails on that field,
/// whatever its other fields hold.
pub proof fn law_required_fields_come_first(c: &ChartConfig)
    ensures
        c.chart_type == ChartType::Heatmap && c.z is None ==> first_violation(c) == Some(
            Violation::MissingField { chart_type: ChartType::Heatmap, field: RequiredField::Z },
        ),
        c.chart_type == ChartType::Funnel && c.steps is None ==> first_violation(c) == Some(
            Violation::MissingField { chart_type: ChartType::Funnel, field: RequiredField::Steps },
        ),
        c.chart_type == ChartType::Funnel && c.steps is Some && c.values is None
            ==> first_violation(c) == Some(
            Violation::MissingField { chart_type: ChartType::Funnel, field: RequiredField::Values },
        ),
        c.chart_type == ChartType::Retention && c.cohort_date is None ==> first_violation(c)
            == Some(
            Violation::MissingField {
                chart_type: ChartType::Retention,
                field: RequiredField::CohortDate,
            },
        ),
        c.chart_type == ChartType::Retention && c.cohort_date is Some && c.period_number is None
            ==> first_violation(c) == Some(
            Violation::MissingField {
                chart_type: ChartType::Retention,
                field: RequiredField::PeriodNumber,
            },
        ),
        c.chart_type == ChartType::Retention && c.cohort_date is Some && c.period_number is Some
            && c.users is None ==> first_violation(c) == Some(
            Violation::MissingField { chart_type: ChartType::Retention, field: RequiredField::Users },
        ),
        needs_axes(c.chart_type) && c.x is None ==> first_violation(c) == Some(
            Violation::MissingField { chart_type: c.chart_type, field: RequiredField::X },
        ),
        needs_axes(c.chart_type) && c.x is Some && c.y is None ==> first_violation(c) == Some(
            Violation::MissingField { chart_type: c.chart_type, field: RequiredField::Y },
        ),
{
}

/// A declaration with a width below 100 or above 10000 fails, whatever else
/// it declares; where it has its required fields, the width is the fault.
pub proof fn law_width_outside_bounds_fails(c: &ChartConfig)
    requires
        c.width is Some,
        c.width->0 < 100 || c.width->0 > 10000,
    ensures
        first_violation(c) is Some,
        missing_field(c) is None ==> first_violation(c) == Some(
            Violation::WidthOutOfRange(c.width->0),
        ),
{
}

/// A width from 100 to 10000, both ends included, is never the fault of a
/// declaration; a declaration with such a width, its required fields and
/// nothing else that is checked passes.
pub proof fn law_width_within_bounds_passes(c: &ChartConfig)
    requires
        c.width is Some,
        100 <= c.width->0 <= 10000,
    ensures
        !(first_violation(c) matches Some(Violation::WidthOutOfRange(_))),
        missing_field(c) is None && c.height is None && c.scale is None && c.bins is None
            && c.filter is None ==> first_violation(c) is None,
{
    if c.filter is Some {
        lemma_filter_violation_kind(&c.filter->0);
    }
}

/// The height is checked as the width is: a height below 100 or above 10000
/// is the fault of a declaration whose required fields and width are in
/// order, and a height from 100 to 10000 is never the fault.
pub proof fn law_height_bounds_inclusive(c: &ChartConfig)
    requires
        c.height is Some,
    ensures
        (c.height->0 < 100 || c.height->0 > 10000) ==> first_violation(c) is Some,
        missing_field(c) is None && (c.width is None || 100 <= c.width->0 <= 10000) ==> ((
        c.height->0 < 100 || c.height->0 > 10000) <==> first_violation(c) == Some(
            Violation::HeightOutOfRange(c.height->0),
        )),
{
    if c.filter is Some {
        lemma_filter_violation_kind(&c.filter->0);
    }
}

/// A filter never fails on a dimension.
pub proof fn lemma_filter_violation_kind(f: &FilterConfig)
    ensures
        !(filter_violation(f) matches Some(Violation::WidthOutOfRange(_))),
        !(filter_violation(f) matches Some(Violation::HeightOutOfRange(_))),
{
    lemma_entries_violation_kind(entries_of(f.includes));
    lemma_entries_violation_kind(entries_of(f.exclude));
}

/// A list of filter entries never fails on a dimension.
pub proof fn lemma_entries_violation_kind(entries: Seq<(String, FilterValue)>)
    ensures
        !(entries_violation(entries) matches Some(Violation::WidthOutOfRange(_))),
        !(entries_violation(entries) matches Some(Violation::HeightOutOfRange(_))),
    decreases entries.len(),
{
    if entries.len() > 0 && entry_violation(entries[0]) is None {
        lemma_entries_violation_kind(entries.drop_first());
    }
}

/// Why a list of charts is refused.
#[derive(Debug, PartialEq, Eq)]
pub enum SpecError {
    /// The list holds no chart.
    NoCharts,
    /// The chart with this number, counted from one, breaks a rule.
    Chart { number: usize, cause: ValidationError },
}

impl SpecError {
    /// The message of a refused list as a character sequence.
    pub open spec fn text(&self) -> Seq<char> {
        match *self {
            SpecError::NoCharts => "Chart specification must contain at least one chart"@,
            SpecError::Chart { number, cause } => "Chart "@ + nat_text(number as nat)
                + " validation failed: "@ + cause@.text(),
        }
    }

    /// The message that reports why the list is refused; for a faulty chart it
    /// gives the chart's number and the rule that the chart breaks.
    pub fn message(&self) -> (s: String)
        ensures
            s@ == self.text(),
    {
        let mut out: Vec<char> = Vec::new();
        match self {
            SpecError::NoCharts => push_str(
                &mut out,
                "Chart specification must contain at least one chart",
            ),
            SpecError::Chart { number, cause } => {
                push_str(&mut out, "Chart ");
                push_nat(&mut out, *number as u128);
                push_str(&mut out, " validation failed: ");
                let inner: String = cause.message();
                push_str(&mut out, inner.as_str());
            },
        }
        assert(out@ =~= self.text());
        string_of(&out)
    }
}

impl ChartSpec {
    /// Checks that the list holds a chart and that every chart is valid. The
    /// first faulty chart is reported with its number, counted from one.
    pub fn validate(&self) -> (r: Result<(), SpecError>)
        ensures
            match r {
                Ok(_) => self.charts@.len() > 0 && forall|i: int|
                    0 <= i < self.charts@.len() ==> first_violation(&#[trigger] self.charts@[i])
                        is None,
                Err(SpecError::NoCharts) => self.charts@.len() == 0,
                Err(SpecError::Chart { number, cause }) => 1 <= number <= self.charts@.len()
                    && first_violation(&self.charts@[number - 1]) == Some(cause@) && forall|i: int|
                    0 <= i < number - 1 ==> first_violation(&#[trigger] self.charts@[i]) is None,
            },
    {
        if self.charts.len() == 0 {
            return Err(SpecError::NoCharts);
        }
        let mut i: usize = 0;
        while i < self.charts.len()
            invariant
                i <= self.charts.len(),
                forall|k: int| 0 <= k < i ==> first_violation(&#[trigger] self.charts@[k]) is None,
            decreases self.charts.len() - i,
        {
            match self.charts[i].validate() {
                Ok(_) => {},
                Err(cause) => {
                    return Err(SpecError::Chart { number: i + 1, cause });
                },
            }
            i += 1;
        }
        Ok(())
    }
}

} // verus!
