//! The command line as plain values: the arguments of each command, the
//! declaration and the files that a command asks for, and the part of a
//! batch that is decided before and after the charts are drawn.

use vstd::prelude::*;
use vstd::string::*;
use crate::chart::funnel::{step_order_error, validate_step_order};
use crate::chart::RenderError;
use crate::chart_spec::{ChartConfig, ChartSpec, ChartType, FilterConfig, first_violation, ValidationError};
use crate::frame::{Frame, FrameView};
use crate::loader::{first_absent, lemma_first_absent_bound, LoadError, suggested, validate_columns};
use crate::render::{backend_of, chart_fails, chart_region, extension, file_name, format_of, is_render_plan, joined, legend_side, named_item, output_file, region_surface, render_chart, RenderPlan, surface_of, theme_of, title_of};
use crate::sorting::strings_view;
use crate::styling::ChartStyle;
use crate::text::{chars_of, lowercase, nat_text, NumberFault, parse_position, push_nat, push_str, read_position, split_chars, split_on, string_of, trim_chars, trimmed};
use crate::transform::{apply_filters, apply_grouping, column_not_found, filtered, grouped, kept_rows, pipeline, row_kept, run_pipeline, TransformError, TransformFault, yields};
use crate::chart_spec::reports;

verus! {

/// The colour scheme that a command asks for.
#[derive(Debug, Clone, Copy, PartialEq, Eq, Structural)]
pub enum Theme {
    Light,
    Dark,
}

/// The side of a funnel segment on which its label stands.
#[derive(Debug, Clone, Copy, PartialEq, Eq, Structural)]
pub enum ValueLabelPosition {
    Left,
    Right,
}

/// The file format that a command asks for.
#[derive(Debug, Clone, Copy, PartialEq, Eq, Structural)]
pub enum OutputFormat {
    Png,
    Svg,
    Pdf,
}

/// The fold that a command asks for.
#[derive(Debug, Clone, Copy, PartialEq, Eq, Structural)]
pub enum AggregationType {
    Sum,
    Count,
    Mean,
    Median,
    Min,
    Max,
}

/// The colour ramp that a command asks for.
#[derive(Debug, Clone, Copy, PartialEq, Eq, Structural)]
pub enum ColorMap {
    Viridis,
    Plasma,
    Blues,
    Reds,
    Greens,
}

/// The arguments of the `line` command.
#[derive(Debug)]
pub struct LineArgs {
    pub input: String,
    pub x: String,
    pub y: String,
    pub group: Option<String>,
    pub agg: AggregationType,
    pub filter: Option<String>,
    pub title: Option<String>,
    pub out: Option<String>,
    pub width: u32,
    pub height: u32,
}

/// The arguments of the `area` command.
#[derive(Debug)]
pub struct AreaArgs {
    pub input: String,
    pub x: String,
    pub y: String,
    pub group: Option<String>,
    pub agg: AggregationType,
    pub stacked: bool,
    pub normalize: bool,
    pub filter: Option<String>,
    pub title: Option<String>,
    pub out: Option<String>,
    pub width: u32,
    pub height: u32,
}

/// The arguments of the `bar` command.
#[derive(Debug)]
pub struct BarArgs {
    pub input: String,
    pub x: String,
    pub y: String,
    pub group: Option<String>,
    pub agg: AggregationType,
    pub stacked: bool,
    pub horizontal: bool,
    pub filter: Option<String>,
    pub title: Option<String>,
    pub out: Option<String>,
    pub width: u32,
    pub height: u32,
}

/// The arguments of the `heatmap` command.
#[derive(Debug)]
pub struct HeatmapArgs {
    pub input: String,
    pub x: String,
    pub y: String,
    pub z: String,
    pub bins: u32,
    pub colormap: ColorMap,
    pub title: Option<String>,
    pub out: Option<String>,
    pub width: u32,
    pub height: u32,
}

/// The arguments of the `funnel` command. `steps` lists the step names
/// between commas; `step_order` lists positions between commas.
#[derive(Debug)]
pub struct FunnelArgs {
    pub input: String,
    pub steps: String,
    pub step_order: Option<String>,
    pub value_labels: crate::chart_spec::ValueLabelPosition,
    pub values: String,
    pub conversion_rates: bool,
    pub title: Option<String>,
    pub out: Option<String>,
    pub width: u32,
    pub height: u32,
}

/// The arguments of the `retention` command.
#[derive(Debug)]
pub struct RetentionArgs {
    pub input: String,
    pub cohort_date: String,
    pub period_number: String,
    pub users: String,
    pub percentage: bool,
    pub title: Option<String>,
    pub out: Option<String>,
    pub width: u32,
    pub height: u32,
}

/// The arguments of the `render` command, which draws the charts of a
/// specification file.
#[derive(Debug)]
pub struct RenderArgs {
    pub spec: String,
    pub data: Option<String>,
    pub out: Option<String>,
    pub parallel: Option<usize>,
}

/// The arguments of the `bar-stacked` command.
#[derive(Debug)]
pub struct BarStackedArgs {
    pub input: String,
    pub x: String,
    pub y: String,
    pub group: Option<String>,
    pub agg: AggregationType,
    pub filter: Option<String>,
    pub title: Option<String>,
    pub out: Option<String>,
    pub width: u32,
    pub height: u32,
}

/// The arguments of the `scatter` command.
#[derive(Debug)]
pub struct ScatterArgs {
    pub input: String,
    pub x: String,
    pub y: String,
    pub group: Option<String>,
    pub filter: Option<String>,
    pub title: Option<String>,
    pub out: Option<String>,
    pub width: u32,
    pub height: u32,
}

/// A command with its arguments.
#[derive(Debug)]
pub enum Commands {
    Line(LineArgs),
    Area(AreaArgs),
    Bar(BarArgs),
    BarStacked(BarStackedArgs),
    Heatmap(HeatmapArgs),
    Scatter(ScatterArgs),
    Funnel(FunnelArgs),
    Retention(RetentionArgs),
    Render(RenderArgs),
}

/// The command line: a command and the options that every command takes.
/// `scale` is in thousandths.
#[derive(Debug)]
pub struct Cli {
    pub command: Commands,
    pub verbose: bool,
    pub quiet: bool,
    pub theme: Theme,
    pub scale: i64,
    pub format: OutputFormat,
}

/// The fold of the declaration for the fold of the command line.
pub open spec fn folding(agg: AggregationType) -> crate::chart_spec::AggregationType {
    match agg {
        AggregationType::Sum => crate::chart_spec::AggregationType::Sum,
        AggregationType::Count => crate::chart_spec::AggregationType::Count,
        AggregationType::Mean => crate::chart_spec::AggregationType::Mean,
        AggregationType::Median => crate::chart_spec::AggregationType::Median,
        AggregationType::Min => crate::chart_spec::AggregationType::Min,
        AggregationType::Max => crate::chart_spec::AggregationType::Max,
    }
}

/// The colour ramp of the declaration for that of the command line.
pub open spec fn ramp(colormap: ColorMap) -> crate::chart_spec::ColorMap {
    match colormap {
        ColorMap::Viridis => crate::chart_spec::ColorMap::Viridis,
        ColorMap::Plasma => crate::chart_spec::ColorMap::Plasma,
        ColorMap::Blues => crate::chart_spec::ColorMap::Blues,
        ColorMap::Reds => crate::chart_spec::ColorMap::Reds,
        ColorMap::Greens => crate::chart_spec::ColorMap::Greens,
    }
}

/// The theme of the declaration for that of the command line.
pub open spec fn themed(theme: Theme) -> crate::chart_spec::Theme {
    match theme {
        Theme::Light => crate::chart_spec::Theme::Light,
        Theme::Dark => crate::chart_spec::Theme::Dark,
    }
}

/// The fold of the declaration for the fold of the command line.
pub fn convert_agg_type(cli_agg: &AggregationType) -> (agg: crate::chart_spec::AggregationType)
    ensures
        agg == folding(*cli_agg),
{
    match cli_agg {
        AggregationType::Sum => crate::chart_spec::AggregationType::Sum,
        AggregationType::Count => crate::chart_spec::AggregationType::Count,
        AggregationType::Mean => crate::chart_spec::AggregationType::Mean,
        AggregationType::Median => crate::chart_spec::AggregationType::Median,
        AggregationType::Min => crate::chart_spec::AggregationType::Min,
        AggregationType::Max => crate::chart_spec::AggregationType::Max,
    }
}

/// The colour ramp of the declaration for that of the command line.
pub fn convert_colormap_type(cli_colormap: &ColorMap) -> (colormap: crate::chart_spec::ColorMap)
    ensures
        colormap == ramp(*cli_colormap),
{
    match cli_colormap {
        ColorMap::Viridis => crate::chart_spec::ColorMap::Viridis,
        ColorMap::Plasma => crate::chart_spec::ColorMap::Plasma,
        ColorMap::Blues => crate::chart_spec::ColorMap::Blues,
        ColorMap::Reds => crate::chart_spec::ColorMap::Reds,
        ColorMap::Greens => crate::chart_spec::ColorMap::Greens,
    }
}

/// The theme of the declaration for that of the command line.
pub fn convert_theme_type(cli_theme: &Theme) -> (theme: crate::chart_spec::Theme)
    ensures
        theme == themed(*cli_theme),
{
    match cli_theme {
        Theme::Light => crate::chart_spec::Theme::Light,
        Theme::Dark => crate::chart_spec::Theme::Dark,
    }
}

/// Whether `filter` is the filter of a filter text: the text as it is for
/// the expression, and no condition on any column.
pub open spec fn is_parsed_filter(filter: &FilterConfig, text: Seq<char>) -> bool {
    &&& filter.includes is None
    &&& filter.exclude is None
    &&& filter.expression is Some
    &&& filter.expression->0@ == text
}

/// A filter of a filter text keeps every row of every table: the text is
/// accepted and not evaluated.
pub proof fn law_filter_text_keeps_every_row(filter: &FilterConfig, text: Seq<char>, table: FrameView)
    requires
        is_parsed_filter(filter, text),
        table.wf(),
        table.height() <= usize::MAX,
    ensures
        filtered(table, filter) == Ok::<FrameView, TransformFault>(table),
{
    lemma_every_row_kept(table, filter, table.height());
    let kept = kept_rows(table, filter, table.height());
    assert(table.select(kept).names =~= table.names);
    assert(table.select(kept).cells =~= table.cells) by {
        assert forall|c: int| 0 <= c < table.cells.len() implies table.select(kept).cells[c]
            =~= table.cells[c] by {
            assert(table.cells[c].len() == table.height());
        }
    }
}

/// A filter without an entry keeps the first `n` rows, each at its place.
pub proof fn lemma_every_row_kept(table: FrameView, filter: &FilterConfig, n: nat)
    requires
        filter.includes is None,
        filter.exclude is None,
        n <= usize::MAX,
    ensures
        kept_rows(table, filter, n).len() == n,
        forall|i: int| 0 <= i < n ==> #[trigger] kept_rows(table, filter, n)[i] == i,
    decreases n,
{
    if n > 0 {
        lemma_every_row_kept(table, filter, (n - 1) as nat);
        assert(row_kept(table, filter, n - 1));
    }
}

/// Makes the filter of a filter text. Every text is accepted; it becomes the
/// expression of the filter, which places no condition on any column.
pub fn parse_filter_string(filter_str: &str) -> (r: Result<FilterConfig, ValidationError>)
    ensures
        r is Ok,
        is_parsed_filter(&r->Ok_0, filter_str@),
{
    Ok(FilterConfig { includes: None, exclude: None, expression: Some(String::from_str(filter_str)) })
}

/// Whether two optional texts are both absent or hold the same text.
pub open spec fn same_text(a: Option<String>, b: Option<String>) -> bool {
    match (a, b) {
        (Some(x), Some(y)) => x@ == y@,
        (None, None) => true,
        _ => false,
    }
}

/// Whether `filter` is the filter of an optional filter text.
pub open spec fn filter_from(filter: Option<FilterConfig>, text: Option<String>) -> bool {
    match (filter, text) {
        (Some(f), Some(t)) => is_parsed_filter(&f, t@),
        (None, None) => true,
        _ => false,
    }
}

fn copy_text(text: &Option<String>) -> (copy: Option<String>)
    ensures
        same_text(copy, *text),
{
    match text {
        Some(t) => Some(t.clone()),
        None => None,
    }
}

fn filter_of(text: &Option<String>) -> (filter: Option<FilterConfig>)
    ensures
        filter_from(filter, *text),
{
    match text {
        Some(t) => match parse_filter_string(t.as_str()) {
            Ok(f) => Some(f),
            Err(_) => None,
        },
        None => None,
    }
}

/// What a chart command asks for: the declaration of the chart, the input
/// file and the output file.
#[derive(Debug)]
pub struct ChartJob {
    pub config: ChartConfig,
    pub input: String,
    pub output_path: String,
}

/// The name of the output file for an input file of the given stem: the
/// stem, or the kind where the input has no stem, then a hyphen, the kind
/// and the extension of a PNG image.
pub open spec fn default_output_name(stem: Option<Seq<char>>, kind: Seq<char>) -> Seq<char> {
    (match stem {
        Some(s) => s,
        None => kind,
    }) + "-"@ + kind + ".png"@
}

/// Whether `path` is the output file of a command: the file given, or else
/// the default name for some stem.
pub open spec fn is_output_path(path: Seq<char>, out: Option<String>, kind: Seq<char>) -> bool {
    match out {
        Some(given) => path == given@,
        None => exists|stem: Option<Seq<char>>| path == default_output_name(stem, kind),
    }
}

/// The name of the output file for an input file of the given stem.
pub fn default_output_path(stem: &Option<String>, kind: &str) -> (path: String)
    ensures
        path@ == default_output_name(
            match *stem {
                Some(s) => Some(s@),
                None => None,
            },
            kind@,
        ),
{
    let mut out: Vec<char> = match stem {
        Some(s) => chars_of(s.as_str()),
        None => chars_of(kind),
    };
    push_str(&mut out, "-");
    push_str(&mut out, kind);
    push_str(&mut out, ".png");
    string_of(&out)
}

/// Calls `std::path::Path::file_stem` on the path: the name of the file
/// without its extension, where the path has a file name that is valid
/// text. What counts as a file name depends on the platform, so nothing is
/// stated of the result.
#[verifier::external_body]
fn input_stem(path: &str) -> (stem: Option<String>) {
    match std::path::Path::new(path).file_stem() {
        Some(stem) => match stem.to_str() {
            Some(text) => Some(text.to_string()),
            None => None,
        },
        None => None,
    }
}

fn output_path(out: &Option<String>, input: &String, kind: &str) -> (path: String)
    ensures
        is_output_path(path@, *out, kind@),
{
    match out {
        Some(given) => given.clone(),
        None => {
            let stem: Option<String> = input_stem(input.as_str());
            let path: String = default_output_path(&stem, kind);
            assert(path@ == default_output_name(
                match stem {
                    Some(s) => Some(s@),
                    None => None,
                },
                kind@,
            ));
            path
        },
    }
}

/// Whether `c` is the declaration of the line chart that the arguments ask for: the
/// bindings and flags of the arguments, the theme given, a PNG image, and
/// nothing else declared.
pub open spec fn is_line_config(c: &ChartConfig, args: &LineArgs, theme: &Theme) -> bool {
    &&& c.chart_type == ChartType::Line
    &&& same_text(c.title, args.title)
    &&& c.data is Some && c.data->0@ == args.input@
    &&& c.x is Some && c.x->0@ == args.x@
    &&& c.y is Some && c.y->0@ == args.y@
    &&& c.z is None
    &&& same_text(c.group_by, args.group)
    &&& c.agg == Some(folding(args.agg))
    &&& filter_from(c.filter, args.filter)
    &&& c.derive is None
    &&& c.sort is None
    &&& c.limit is None
    &&& c.width == Some(args.width)
    &&& c.height == Some(args.height)
    &&& c.theme == Some(themed(*theme))
    &&& c.format == Some(crate::chart_spec::OutputFormat::Png)
    &&& c.scale is None
    &&& c.stacked is None
    &&& c.horizontal is None
    &&& c.normalize is None
    &&& c.bins is None
    &&& c.colormap is None
    &&& c.steps is None
    &&& c.step_order is None
    &&& c.value_labels is None
    &&& c.values is None
    &&& c.conversion_rates is None
    &&& c.cohort_date is None
    &&& c.period_number is None
    &&& c.users is None
    &&& c.percentage is None
    &&& c.legend_position is None
}

/// Makes the job of the `line` command: the declaration that the arguments
/// ask for, the input file, and the output file, which is the one given or
/// else named after the input file.
pub fn render_line_chart_cli(args: &LineArgs, theme: &Theme) -> (job: ChartJob)
    ensures
        is_line_config(&job.config, args, theme),
        job.input@ == args.input@,
        is_output_path(job.output_path@, args.out, "line"@),
{
    let config: ChartConfig = ChartConfig {
        chart_type: ChartType::Line,
        title: copy_text(&args.title),
        data: Some(args.input.clone()),
        x: Some(args.x.clone()),
        y: Some(args.y.clone()),
        z: None,
        group_by: copy_text(&args.group),
        agg: Some(convert_agg_type(&args.agg)),
        filter: filter_of(&args.filter),
        derive: None,
        sort: None,
        limit: None,
        width: Some(args.width),
        height: Some(args.height),
        theme: Some(convert_theme_type(theme)),
        format: Some(crate::chart_spec::OutputFormat::Png),
        scale: None,
        stacked: None,
        horizontal: None,
        normalize: None,
        bins: None,
        colormap: None,
        steps: None,
        step_order: None,
        value_labels: None,
        values: None,
        conversion_rates: None,
        cohort_date: None,
        period_number: None,
        users: None,
        percentage: None,
        legend_position: None,
    };
    ChartJob { config, input: args.input.clone(), output_path: output_path(&args.out, &args.input, "line") }
}

/// Whether `c` is the declaration of the area chart that the arguments ask for: the
/// bindings and flags of the arguments, the theme given, a PNG image, and
/// nothing else declared.
pub open spec fn is_area_config(c: &ChartConfig, args: &AreaArgs, theme: &Theme) -> bool {
    &&& c.chart_type == ChartType::Area
    &&& same_text(c.title, args.title)
    &&& c.data is Some && c.data->0@ == args.input@
    &&& c.x is Some && c.x->0@ == args.x@
    &&& c.y is Some && c.y->0@ == args.y@
    &&& c.z is None
    &&& same_text(c.group_by, args.group)
    &&& c.agg == Some(folding(args.agg))
    &&& filter_from(c.filter, args.filter)
    &&& c.derive is None
    &&& c.sort is None
    &&& c.limit is None
    &&& c.width == Some(args.width)
    &&& c.height == Some(args.height)
    &&& c.theme == Some(themed(*theme))
    &&& c.format == Some(crate::chart_spec::OutputFormat::Png)
    &&& c.scale is None
    &&& c.stacked == Some(args.stacked)
    &&& c.horizontal is None
    &&& c.normalize == Some(args.normalize)
    &&& c.bins is None
    &&& c.colormap is None
    &&& c.steps is None
    &&& c.step_order is None
    &&& c.value_labels is None
    &&& c.values is None
    &&& c.conversion_rates is None
    &&& c.cohort_date is None
    &&& c.period_number is None
    &&& c.users is None
    &&& c.percentage is None
    &&& c.legend_position is None
}

/// Makes the job of the `area` command: the declaration that the arguments
/// ask for, the input file, and the output file, which is the one given or
/// else named after the input file.
pub fn render_area_chart_cli(args: &AreaArgs, theme: &Theme) -> (job: ChartJob)
    ensures
        is_area_config(&job.config, args, theme),
        job.input@ == args.input@,
        is_output_path(job.output_path@, args.out, "area"@),
{
    let config: ChartConfig = ChartConfig {
        chart_type: ChartType::Area,
        title: copy_text(&args.title),
        data: Some(args.input.clone()),
        x: Some(args.x.clone()),
        y: Some(args.y.clone()),
        z: None,
        group_by: copy_text(&args.group),
        agg: Some(convert_agg_type(&args.agg)),
        filter: filter_of(&args.filter),
        derive: None,
        sort: None,
        limit: None,
        width: Some(args.width),
        height: Some(args.height),
        theme: Some(convert_theme_type(theme)),
        format: Some(crate::chart_spec::OutputFormat::Png),
        scale: None,
        stacked: Some(args.stacked),
        horizontal: None,
        normalize: Some(args.normalize),
        bins: None,
        colormap: None,
        steps: None,
        step_order: None,
        value_labels: None,
        values: None,
        conversion_rates: None,
        cohort_date: None,
        period_number: None,
        users: None,
        percentage: None,
        legend_position: None,
    };
    ChartJob { config, input: args.input.clone(), output_path: output_path(&args.out, &args.input, "area") }
}

/// Whether `c` is the declaration of the bar chart that the arguments ask for: the
/// bindings and flags of the arguments, the theme given, a PNG image, and
/// nothing else declared.
pub open spec fn is_bar_config(c: &ChartConfig, args: &BarArgs, theme: &Theme) -> bool {
    &&& c.chart_type == ChartType::Bar
    &&& same_text(c.title, args.title)
    &&& c.data is Some && c.data->0@ == args.input@
    &&& c.x is Some && c.x->0@ == args.x@
    &&& c.y is Some && c.y->0@ == args.y@
    &&& c.z is None
    &&& same_text(c.group_by, args.group)
    &&& c.agg == Some(folding(args.agg))
    &&& filter_from(c.filter, args.filter)
    &&& c.derive is None
    &&& c.sort is None
    &&& c.limit is None
    &&& c.width == Some(args.width)
    &&& c.height == Some(args.height)
    &&& c.theme == Some(themed(*theme))
    &&& c.format == Some(crate::chart_spec::OutputFormat::Png)
    &&& c.scale is None
    &&& c.stacked == Some(args.stacked)
    &&& c.horizontal == Some(args.horizontal)
    &&& c.normalize is None
    &&& c.bins is None
    &&& c.colormap is None
    &&& c.steps is None
    &&& c.step_order is None
    &&& c.value_labels is None
    &&& c.values is None
    &&& c.conversion_rates is None
    &&& c.cohort_date is None
    &&& c.period_number is None
    &&& c.users is None
    &&& c.percentage is None
    &&& c.legend_position is None
}

/// Makes the job of the `bar` command: the declaration that the arguments
/// ask for, the input file, and the output file, which is the one given or
/// else named after the input file.
pub fn render_bar_chart_cli(args: &BarArgs, theme: &Theme) -> (job: ChartJob)
    ensures
        is_bar_config(&job.config, args, theme),
        job.input@ == args.input@,
        is_output_path(job.output_path@, args.out, "bar"@),
{
    let config: ChartConfig = ChartConfig {
        chart_type: ChartType::Bar,
        title: copy_text(&args.title),
        data: Some(args.input.clone()),
        x: Some(args.x.clone()),
        y: Some(args.y.clone()),
        z: None,
        group_by: copy_text(&args.group),
        agg: Some(convert_agg_type(&args.agg)),
        filter: filter_of(&args.filter),
        derive: None,
        sort: None,
        limit: None,
        width: Some(args.width),
        height: Some(args.height),
        theme: Some(convert_theme_type(theme)),
        format: Some(crate::chart_spec::OutputFormat::Png),
        scale: None,
        stacked: Some(args.stacked),
        horizontal: Some(args.horizontal),
        normalize: None,
        bins: None,
        colormap: None,
        steps: None,
        step_order: None,
        value_labels: None,
        values: None,
        conversion_rates: None,
        cohort_date: None,
        period_number: None,
        users: None,
        percentage: None,
        legend_position: None,
    };
    ChartJob { config, input: args.input.clone(), output_path: output_path(&args.out, &args.input, "bar") }
}

/// Whether `c` is the declaration of the stacked bar chart that the arguments ask for: the
/// bindings and flags of the arguments, the theme given, a PNG image, and
/// nothing else declared.
pub open spec fn is_bar_stacked_config(c: &ChartConfig, args: &BarStackedArgs, theme: &Theme) -> bool {
    &&& c.chart_type == ChartType::BarStacked
    &&& same_text(c.title, args.title)
    &&& c.data is Some && c.data->0@ == args.input@
    &&& c.x is Some && c.x->0@ == args.x@
    &&& c.y is Some && c.y->0@ == args.y@
    &&& c.z is None
    &&& same_text(c.group_by, args.group)
    &&& c.agg == Some(folding(args.agg))
    &&& filter_from(c.filter, args.filter)
    &&& c.derive is None
    &&& c.sort is None
    &&& c.limit is None
    &&& c.width == Some(args.width)
    &&& c.height == Some(args.height)
    &&& c.theme == Some(themed(*theme))
    &&& c.format == Some(crate::chart_spec::OutputFormat::Png)
    &&& c.scale is None
    &&& c.stacked == Some(true)
    &&& c.horizontal is None
    &&& c.normalize is None
    &&& c.bins is None
    &&& c.colormap is None
    &&& c.steps is None
    &&& c.step_order is None
    &&& c.value_labels is None
    &&& c.values is None
    &&& c.conversion_rates is None
    &&& c.cohort_date is None
    &&& c.period_number is None
    &&& c.users is None
    &&& c.percentage is None
    &&& c.legend_position is None
}

/// Makes the job of the `bar-stacked` command: the declaration that the arguments
/// ask for, the input file, and the output file, which is the one given or
/// else named after the input file.
pub fn render_bar_stacked_chart_cli(args: &BarStackedArgs, theme: &Theme) -> (job: ChartJob)
    ensures
        is_bar_stacked_config(&job.config, args, theme),
        job.input@ == args.input@,
        is_output_path(job.output_path@, args.out, "bar-stacked"@),
{
    let config: ChartConfig = ChartConfig {
        chart_type: ChartType::BarStacked,
        title: copy_text(&args.title),
        data: Some(args.input.clone()),
        x: Some(args.x.clone()),
        y: Some(args.y.clone()),
        z: None,
        group_by: copy_text(&args.group),
        agg: Some(convert_agg_type(&args.agg)),
        filter: filter_of(&args.filter),
        derive: None,
        sort: None,
        limit: None,
        width: Some(args.width),
        height: Some(args.height),
        theme: Some(convert_theme_type(theme)),
        format: Some(crate::chart_spec::OutputFormat::Png),
        scale: None,
        stacked: Some(true),
        horizontal: None,
        normalize: None,
        bins: None,
        colormap: None,
        steps: None,
        step_order: None,
        value_labels: None,
        values: None,
        conversion_rates: None,
        cohort_date: None,
        period_number: None,
        users: None,
        percentage: None,
        legend_position: None,
    };
    ChartJob { config, input: args.input.clone(), output_path: output_path(&args.out, &args.input, "bar-stacked") }
}

/// Whether `c` is the declaration of the heatmap that the arguments ask for: the
/// bindings and flags of the arguments, the theme given, a PNG image, and
/// nothing else declared.
pub open spec fn is_heatmap_config(c: &ChartConfig, args: &HeatmapArgs, theme: &Theme) -> bool {
    &&& c.chart_type == ChartType::Heatmap
    &&& same_text(c.title, args.title)
    &&& c.data is Some && c.data->0@ == args.input@
    &&& c.x is Some && c.x->0@ == args.x@
    &&& c.y is Some && c.y->0@ == args.y@
    &&& c.z is Some && c.z->0@ == args.z@
    &&& c.group_by is None
    &&& c.agg is None
    &&& c.filter is None
    &&& c.derive is None
    &&& c.sort is None
    &&& c.limit is None
    &&& c.width == Some(args.width)
    &&& c.height == Some(args.height)
    &&& c.theme == Some(themed(*theme))
    &&& c.format == Some(crate::chart_spec::OutputFormat::Png)
    &&& c.scale is None
    &&& c.stacked is None
    &&& c.horizontal is None
    &&& c.normalize is None
    &&& c.bins == Some(args.bins)
    &&& c.colormap == Some(ramp(args.colormap))
    &&& c.steps is None
    &&& c.step_order is None
    &&& c.value_labels is None
    &&& c.values is None
    &&& c.conversion_rates is None
    &&& c.cohort_date is None
    &&& c.period_number is None
    &&& c.users is None
    &&& c.percentage is None
    &&& c.legend_position is None
}

/// Makes the job of the `heatmap` command: the declaration that the arguments
/// ask for, the input file, and the output file, which is the one given or
/// else named after the input file.
pub fn render_heatmap_chart_cli(args: &HeatmapArgs, theme: &Theme) -> (job: ChartJob)
    ensures
        is_heatmap_config(&job.config, args, theme),
        job.input@ == args.input@,
        is_output_path(job.output_path@, args.out, "heatmap"@),
{
    let config: ChartConfig = ChartConfig {
        chart_type: ChartType::Heatmap,
        title: copy_text(&args.title),
        data: Some(args.input.clone()),
        x: Some(args.x.clone()),
        y: Some(args.y.clone()),
        z: Some(args.z.clone()),
        group_by: None,
        agg: None,
        filter: None,
        derive: None,
        sort: None,
        limit: None,
        width: Some(args.width),
        height: Some(args.height),
        theme: Some(convert_theme_type(theme)),
        format: Some(crate::chart_spec::OutputFormat::Png),
        scale: None,
        stacked: None,
        horizontal: None,
        normalize: None,
        bins: Some(args.bins),
        colormap: Some(convert_colormap_type(&args.colormap)),
        steps: None,
        step_order: None,
        value_labels: None,
        values: None,
        conversion_rates: None,
        cohort_date: None,
        period_number: None,
        users: None,
        percentage: None,
        legend_position: None,
    };
    ChartJob { config, input: args.input.clone(), output_path: output_path(&args.out, &args.input, "heatmap") }
}

/// Whether `c` is the declaration of the scatter plot that the arguments ask for: the
/// bindings and flags of the arguments, the theme given, a PNG image, and
/// nothing else declared.
pub open spec fn is_scatter_config(c: &ChartConfig, args: &ScatterArgs, theme: &Theme) -> bool {
    &&& c.chart_type == ChartType::Scatter
    &&& same_text(c.title, args.title)
    &&& c.data is Some && c.data->0@ == args.input@
    &&& c.x is Some && c.x->0@ == args.x@
    &&& c.y is Some && c.y->0@ == args.y@
    &&& c.z is None
    &&& same_text(c.group_by, args.group)
    &&& c.agg is None
    &&& filter_from(c.filter, args.filter)
    &&& c.derive is None
    &&& c.sort is None
    &&& c.limit is None
    &&& c.width == Some(args.width)
    &&& c.height == Some(args.height)
    &&& c.theme == Some(themed(*theme))
    &&& c.format == Some(crate::chart_spec::OutputFormat::Png)
    &&& c.scale is None
    &&& c.stacked is None
    &&& c.horizontal is None
    &&& c.normalize is None
    &&& c.bins is None
    &&& c.colormap is None
    &&& c.steps is None
    &&& c.step_order is None
    &&& c.value_labels is None
    &&& c.values is None
    &&& c.conversion_rates is None
    &&& c.cohort_date is None
    &&& c.period_number is None
    &&& c.users is None
    &&& c.percentage is None
    &&& c.legend_position is None
}

/// Makes the job of the `scatter` command: the declaration that the arguments
/// ask for, the input file, and the output file, which is the one given or
/// else named after the input file.
pub fn render_scatter_chart_cli(args: &ScatterArgs, theme: &Theme) -> (job: ChartJob)
    ensures
        is_scatter_config(&job.config, args, theme),
        job.input@ == args.input@,
        is_output_path(job.output_path@, args.out, "scatter"@),
{
    let config: ChartConfig = ChartConfig {
        chart_type: ChartType::Scatter,
        title: copy_text(&args.title),
        data: Some(args.input.clone()),
        x: Some(args.x.clone()),
        y: Some(args.y.clone()),
        z: None,
        group_by: copy_text(&args.group),
        agg: None,
        filter: filter_of(&args.filter),
        derive: None,
        sort: None,
        limit: None,
        width: Some(args.width),
        height: Some(args.height),
        theme: Some(convert_theme_type(theme)),
        format: Some(crate::chart_spec::OutputFormat::Png),
        scale: None,
        stacked: None,
        horizontal: None,
        normalize: None,
        bins: None,
        colormap: None,
        steps: None,
        step_order: None,
        value_labels: None,
        values: None,
        conversion_rates: None,
        cohort_date: None,
        period_number: None,
        users: None,
        percentage: None,
        legend_position: None,
    };
    ChartJob { config, input: args.input.clone(), output_path: output_path(&args.out, &args.input, "scatter") }
}

/// Whether `c` is the declaration of the retention chart that the arguments ask for: the
/// bindings and flags of the arguments, the theme given, a PNG image, and
/// nothing else declared.
pub open spec fn is_retention_config(c: &ChartConfig, args: &RetentionArgs, theme: &Theme) -> bool {
    &&& c.chart_type == ChartType::Retention
    &&& same_text(c.title, args.title)
    &&& c.data is Some && c.data->0@ == args.input@
    &&& c.x is None
    &&& c.y is None
    &&& c.z is None
    &&& c.group_by is None
    &&& c.agg is None
    &&& c.filter is None
    &&& c.derive is None
    &&& c.sort is None
    &&& c.limit is None
    &&& c.width == Some(args.width)
    &&& c.height == Some(args.height)
    &&& c.theme == Some(themed(*theme))
    &&& c.format == Some(crate::chart_spec::OutputFormat::Png)
    &&& c.scale is None
    &&& c.stacked is None
    &&& c.horizontal is None
    &&& c.normalize is None
    &&& c.bins is None
    &&& c.colormap is None
    &&& c.steps is None
    &&& c.step_order is None
    &&& c.value_labels is None
    &&& c.values is None
    &&& c.conversion_rates is None
    &&& c.cohort_date is Some && c.cohort_date->0@ == args.cohort_date@
    &&& c.period_number is Some && c.period_number->0@ == args.period_number@
    &&& c.users is Some && c.users->0@ == args.users@
    &&& c.percentage == Some(args.percentage)
    &&& c.legend_position is None
}

/// Makes the job of the `retention` command: the declaration that the arguments
/// ask for, the input file, and the output file, which is the one given or
/// else named after the input file.
pub fn render_retention_chart_cli(args: &RetentionArgs, theme: &Theme) -> (job: ChartJob)
    ensures
        is_retention_config(&job.config, args, theme),
        job.input@ == args.input@,
        is_output_path(job.output_path@, args.out, "retention"@),
{
    let config: ChartConfig = ChartConfig {
        chart_type: ChartType::Retention,
        title: copy_text(&args.title),
        data: Some(args.input.clone()),
        x: None,
        y: None,
        z: None,
        group_by: None,
        agg: None,
        filter: None,
        derive: None,
        sort: None,
        limit: None,
        width: Some(args.width),
        height: Some(args.height),
        theme: Some(convert_theme_type(theme)),
        format: Some(crate::chart_spec::OutputFormat::Png),
        scale: None,
        stacked: None,
        horizontal: None,
        normalize: None,
        bins: None,
        colormap: None,
        steps: None,
        step_order: None,
        value_labels: None,
        values: None,
        conversion_rates: None,
        cohort_date: Some(args.cohort_date.clone()),
        period_number: Some(args.period_number.clone()),
        users: Some(args.users.clone()),
        percentage: Some(args.percentage),
        legend_position: None,
    };
    ChartJob { config, input: args.input.clone(), output_path: output_path(&args.out, &args.input, "retention") }
}

/// Why a command line is refused.
#[derive(Debug, Clone, Copy, PartialEq, Eq, Structural)]
pub enum CliError {
    /// The steps of a funnel name no step.
    NoSteps,
    /// A position of a step order is no number.
    InvalidStepOrder(NumberFault),
    /// A step order does not fit the steps.
    StepOrder(RenderError),
}

/// What a number fault says.
pub open spec fn number_fault_text(fault: NumberFault) -> Seq<char> {
    match fault {
        NumberFault::Empty => "cannot parse integer from empty string"@,
        NumberFault::InvalidDigit => "invalid digit found in string"@,
        NumberFault::TooLarge => "number too large to fit in target type"@,
    }
}

impl CliError {
    /// The message of the error as a character sequence.
    pub open spec fn text(self) -> Seq<char> {
        match self {
            CliError::NoSteps => "No steps provided"@,
            CliError::InvalidStepOrder(fault) => "Invalid step order: "@ + number_fault_text(fault),
            CliError::StepOrder(e) => e.text(),
        }
    }

    /// The message that reports the error.
    pub fn message(&self) -> (s: String)
        ensures
            s@ == self.text(),
    {
        match self {
            CliError::NoSteps => String::from_str("No steps provided"),
            CliError::InvalidStepOrder(fault) => {
                let mut out: Vec<char> = chars_of("Invalid step order: ");
                match fault {
                    NumberFault::Empty => push_str(
                        &mut out,
                        "cannot parse integer from empty string",
                    ),
                    NumberFault::InvalidDigit => push_str(&mut out, "invalid digit found in string"),
                    NumberFault::TooLarge => push_str(
                        &mut out,
                        "number too large to fit in target type",
                    ),
                }
                string_of(&out)
            },
            CliError::StepOrder(e) => e.message(),
        }
    }
}

/// The pieces of a list that are not empty once the white space around them
/// is dropped, among the first `n` pieces, each without that white space.
pub open spec fn kept_names(pieces: Seq<Seq<char>>, n: nat) -> Seq<Seq<char>>
    decreases n,
{
    if n == 0 {
        Seq::empty()
    } else if trimmed(pieces[n - 1]).len() > 0 {
        kept_names(pieces, (n - 1) as nat).push(trimmed(pieces[n - 1]))
    } else {
        kept_names(pieces, (n - 1) as nat)
    }
}

/// The step names of a list between commas: each piece without the white
/// space around it, empty pieces left out.
pub open spec fn step_names(list: Seq<char>) -> Seq<Seq<char>> {
    kept_names(split_on(list, ','), split_on(list, ',').len())
}

/// The step names of a list between commas.
pub fn parse_steps(list: &str) -> (steps: Vec<String>)
    ensures
        strings_view(steps@) == step_names(list@),
{
    let chars: Vec<char> = chars_of(list);
    let pieces: Vec<Vec<char>> = split_chars(&chars, ',');
    let ghost all = split_on(list@, ',');
    let mut steps: Vec<String> = Vec::new();
    let mut i: usize = 0;
    assert(strings_view(steps@) =~= kept_names(all, 0));
    while i < pieces.len()
        invariant
            i <= pieces.len(),
            all == Seq::new(pieces@.len(), |k: int| pieces@[k]@),
            strings_view(steps@) == kept_names(all, i as nat),
        decreases pieces.len() - i,
    {
        let name: Vec<char> = trim_chars(&pieces[i]);
        assert(all[i as int] == pieces@[i as int]@);
        if name.len() > 0 {
            let ghost before = strings_view(steps@);
            steps.push(string_of(&name));
            assert(strings_view(steps@) =~= before.push(name@));
        }
        i += 1;
    }
    steps
}

/// The positions that a list between commas writes, among the first `n`
/// pieces: each piece without the white space around it is read as a
/// position. The first piece that is no position is the fault of the list.
pub open spec fn read_positions(pieces: Seq<Seq<char>>, n: nat) -> Result<Seq<usize>, NumberFault>
    decreases n,
{
    if n == 0 {
        Ok(Seq::empty())
    } else {
        match read_positions(pieces, (n - 1) as nat) {
            Err(fault) => Err(fault),
            Ok(before) => match read_position(trimmed(pieces[n - 1])) {
                Err(fault) => Err(fault),
                Ok(p) => Ok(before.push(p as usize)),
            },
        }
    }
}

/// The step order that a text writes for a number of steps: the positions
/// of the list between commas, which must fit the steps.
pub open spec fn read_step_order(list: Seq<char>, steps: usize) -> Result<Seq<usize>, CliError> {
    match read_positions(split_on(list, ','), split_on(list, ',').len()) {
        Err(fault) => Err(CliError::InvalidStepOrder(fault)),
        Ok(order) => match step_order_error(order, steps) {
            Some(e) => Err(CliError::StepOrder(e)),
            None => Ok(order),
        },
    }
}

/// Reads a step order from a list of positions between commas and checks it
/// against the number of steps.
pub fn parse_step_order(list: &str, num_steps: usize) -> (r: Result<Vec<usize>, CliError>)
    ensures
        match r {
            Ok(order) => read_step_order(list@, num_steps) == Ok::<Seq<usize>, CliError>(order@),
            Err(e) => read_step_order(list@, num_steps) == Err::<Seq<usize>, CliError>(e),
        },
{
    let chars: Vec<char> = chars_of(list);
    let pieces: Vec<Vec<char>> = split_chars(&chars, ',');
    let ghost all = split_on(list@, ',');
    let mut order: Vec<usize> = Vec::new();
    let mut i: usize = 0;
    while i < pieces.len()
        invariant
            i <= pieces.len(),
            all == Seq::new(pieces@.len(), |k: int| pieces@[k]@),
            all == split_on(list@, ','),
            read_positions(all, i as nat) == Ok::<Seq<usize>, NumberFault>(order@),
        decreases pieces.len() - i,
    {
        let piece: Vec<char> = trim_chars(&pieces[i]);
        assert(all[i as int] == pieces@[i as int]@);
        match parse_position(&piece) {
            Ok(p) => {
                order.push(p);
            },
            Err(fault) => {
                proof {
                    lemma_positions_stay_faulty(all, (i + 1) as nat, all.len());
                }
                return Err(CliError::InvalidStepOrder(fault));
            },
        }
        i += 1;
    }
    match validate_step_order(&order, num_steps) {
        Ok(_) => Ok(order),
        Err(e) => Err(CliError::StepOrder(e)),
    }
}

/// Once a piece is no position, every longer list has the same fault.
pub proof fn lemma_positions_stay_faulty(pieces: Seq<Seq<char>>, n: nat, m: nat)
    requires
        n <= m,
        read_positions(pieces, n) is Err,
    ensures
        read_positions(pieces, m) == read_positions(pieces, n),
    decreases m,
{
    if n < m {
        lemma_positions_stay_faulty(pieces, n, (m - 1) as nat);
    }
}

/// The step order that draws the steps as they are declared.
pub open spec fn declared_order(steps: nat) -> Seq<usize> {
    Seq::new(steps, |i: int| i as usize)
}

/// The step order for an answer given at a prompt: the declared order for a
/// blank answer, else the order that the answer writes.
pub open spec fn answered_order(answer: Seq<char>, steps: usize) -> Result<Seq<usize>, CliError> {
    if trimmed(answer).len() == 0 {
        Ok(declared_order(steps as nat))
    } else {
        read_step_order(trimmed(answer), steps)
    }
}

/// Reads the step order from the answer given at a prompt. A blank answer
/// keeps the steps in their declared order.
pub fn interactive_step_order(answer: &str, num_steps: usize) -> (r: Result<Vec<usize>, CliError>)
    ensures
        match r {
            Ok(order) => answered_order(answer@, num_steps) == Ok::<Seq<usize>, CliError>(order@),
            Err(e) => answered_order(answer@, num_steps) == Err::<Seq<usize>, CliError>(e),
        },
{
    let chars: Vec<char> = chars_of(answer);
    let trimmed_answer: Vec<char> = trim_chars(&chars);
    if trimmed_answer.len() == 0 {
        let mut order: Vec<usize> = Vec::new();
        let mut i: usize = 0;
        while i < num_steps
            invariant
                i <= num_steps,
                order@.len() == i,
                forall|k: int| 0 <= k < i ==> #[trigger] order@[k] == k,
            decreases num_steps - i,
        {
            order.push(i);
            i += 1;
        }
        assert(order@ =~= declared_order(num_steps as nat));
        Ok(order)
    } else {
        let text: String = string_of(&trimmed_answer);
        parse_step_order(text.as_str(), num_steps)
    }
}

/// The step order of a funnel command: the one that the argument writes, or
/// none where there is no argument and the order has to be asked for.
pub fn handle_funnel_step_ordering(steps: &Vec<String>, step_order_arg: &Option<String>) -> (r:
    Result<Option<Vec<usize>>, CliError>)
    ensures
        match (*step_order_arg, r) {
            (None, Ok(None)) => true,
            (Some(list), Ok(Some(order))) => read_step_order(list@, steps@.len() as usize) == Ok::<
                Seq<usize>,
                CliError,
            >(order@),
            (Some(list), Err(e)) => read_step_order(list@, steps@.len() as usize) == Err::<
                Seq<usize>,
                CliError,
            >(e),
            _ => false,
        },
{
    match step_order_arg {
        Some(list) => match parse_step_order(list.as_str(), steps.len()) {
            Ok(order) => Ok(Some(order)),
            Err(e) => Err(e),
        },
        None => Ok(None),
    }
}

/// Whether `c` is the declaration of the funnel that the arguments ask for,
/// drawn in the given order.
pub open spec fn is_funnel_config(
    c: &ChartConfig,
    args: &FunnelArgs,
    theme: &Theme,
    order: Seq<usize>,
) -> bool {
    &&& c.chart_type == ChartType::Funnel
    &&& same_text(c.title, args.title)
    &&& c.data is Some && c.data->0@ == args.input@
    &&& c.x is None
    &&& c.y is None
    &&& c.z is None
    &&& c.group_by is None
    &&& c.agg is None
    &&& c.filter is None
    &&& c.derive is None
    &&& c.sort is None
    &&& c.limit is None
    &&& c.width == Some(args.width)
    &&& c.height == Some(args.height)
    &&& c.theme == Some(themed(*theme))
    &&& c.format == Some(crate::chart_spec::OutputFormat::Png)
    &&& c.scale is None
    &&& c.stacked is None
    &&& c.horizontal is None
    &&& c.normalize is None
    &&& c.bins is None
    &&& c.colormap is None
    &&& c.steps is Some && strings_view(c.steps->0@) == step_names(args.steps@)
    &&& c.step_order is Some && c.step_order->0@ == order
    &&& c.value_labels == Some(args.value_labels)
    &&& c.values is Some && c.values->0@ == args.values@
    &&& c.conversion_rates is None
    &&& c.cohort_date is None
    &&& c.period_number is None
    &&& c.users is None
    &&& c.percentage is None
    &&& c.legend_position is None
}

/// The step order of a funnel command: the one that the argument writes, or
/// else the one that the answer at the prompt writes, a missing answer
/// counting as a blank one.
pub open spec fn funnel_order(args: &FunnelArgs, answer: Option<String>) -> Result<
    Seq<usize>,
    CliError,
> {
    let steps = step_names(args.steps@).len() as usize;
    match args.step_order {
        Some(list) => read_step_order(list@, steps),
        None => answered_order(
            match answer {
                Some(a) => a@,
                None => Seq::empty(),
            },
            steps,
        ),
    }
}

/// Makes the job of the `funnel` command. The steps are the names between
/// the commas of the argument; there must be one at least. The step order
/// is the one of the argument, or else the one of the answer given at the
/// prompt.
pub fn render_funnel_chart_cli(args: &FunnelArgs, theme: &Theme, answer: &Option<String>) -> (r:
    Result<ChartJob, CliError>)
    ensures
        match r {
            Err(e) => if step_names(args.steps@).len() == 0 {
                e == CliError::NoSteps
            } else {
                funnel_order(args, *answer) == Err::<Seq<usize>, CliError>(e)
            },
            Ok(job) => {
                &&& step_names(args.steps@).len() > 0
                &&& funnel_order(args, *answer) is Ok
                &&& is_funnel_config(&job.config, args, theme, funnel_order(args, *answer)->Ok_0)
                &&& job.input@ == args.input@
                &&& is_output_path(job.output_path@, args.out, "funnel"@)
            },
        },
{
    let steps: Vec<String> = parse_steps(args.steps.as_str());
    assert(strings_view(steps@).len() == steps@.len());
    if steps.len() == 0 {
        return Err(CliError::NoSteps);
    }
    proof {
        reveal_strlit("");
        assert(""@ =~= Seq::<char>::empty());
    }
    let order: Vec<usize> = match handle_funnel_step_ordering(&steps, &args.step_order) {
        Err(e) => {
            return Err(e);
        },
        Ok(Some(order)) => order,
        Ok(None) => {
            let given: Result<Vec<usize>, CliError> = match answer {
                Some(a) => interactive_step_order(a.as_str(), steps.len()),
                None => interactive_step_order("", steps.len()),
            };
            match given {
                Ok(order) => order,
                Err(e) => {
                    return Err(e);
                },
            }
        },
    };
    let config: ChartConfig = ChartConfig {
        chart_type: ChartType::Funnel,
        title: copy_text(&args.title),
        data: Some(args.input.clone()),
        x: None,
        y: None,
        z: None,
        group_by: None,
        agg: None,
        filter: None,
        derive: None,
        sort: None,
        limit: None,
        width: Some(args.width),
        height: Some(args.height),
        theme: Some(convert_theme_type(theme)),
        format: Some(crate::chart_spec::OutputFormat::Png),
        scale: None,
        stacked: None,
        horizontal: None,
        normalize: None,
        bins: None,
        colormap: None,
        steps: Some(steps),
        step_order: Some(order),
        value_labels: Some(args.value_labels),
        values: Some(args.values.clone()),
        conversion_rates: None,
        cohort_date: None,
        period_number: None,
        users: None,
        percentage: None,
        legend_position: None,
    };
    Ok(
        ChartJob {
            config,
            input: args.input.clone(),
            output_path: output_path(&args.out, &args.input, "funnel"),
        },
    )
}

/// The columns that a chart needs in its table: x and y where bound; for a
/// heatmap also z; for a retention matrix the cohort date, the period
/// number and the users; and the group column where bound.
pub open spec fn required_columns(config: &ChartConfig) -> Seq<Seq<char>> {
    named_item(config.x) + named_item(config.y) + (match config.chart_type {
        ChartType::Heatmap => named_item(config.z),
        ChartType::Retention => named_item(config.cohort_date) + named_item(config.period_number)
            + named_item(config.users),
        _ => Seq::empty(),
    }) + named_item(config.group_by)
}

fn push_bound(columns: &mut Vec<String>, binding: &Option<String>)
    ensures
        strings_view(final(columns)@) == strings_view(old(columns)@) + named_item(*binding),
{
    if let Some(name) = binding {
        columns.push(name.clone());
    }
    assert(strings_view(columns@) =~= strings_view(old(columns)@) + named_item(*binding));
}

/// Lists the columns that a chart needs in its table.
pub fn get_required_columns(chart_config: &ChartConfig) -> (columns: Vec<String>)
    ensures
        strings_view(columns@) == required_columns(chart_config),
{
    let mut columns: Vec<String> = Vec::new();
    assert(strings_view(columns@) =~= Seq::<Seq<char>>::empty());
    push_bound(&mut columns, &chart_config.x);
    push_bound(&mut columns, &chart_config.y);
    match chart_config.chart_type {
        ChartType::Heatmap => {
            push_bound(&mut columns, &chart_config.z);
        },
        ChartType::Retention => {
            push_bound(&mut columns, &chart_config.cohort_date);
            push_bound(&mut columns, &chart_config.period_number);
            push_bound(&mut columns, &chart_config.users);
        },
        _ => {},
    }
    push_bound(&mut columns, &chart_config.group_by);
    assert(strings_view(columns@) =~= required_columns(chart_config));
    columns
}

/// The column by which a chart groups its rows: the group column, or else
/// the x column; none where the declaration has no fold.
pub open spec fn grouping_column(config: &ChartConfig) -> Option<String> {
    if config.agg is None {
        None
    } else if config.group_by is Some {
        config.group_by
    } else {
        config.x
    }
}

/// The table that a chart draws: the pipeline with the filter, the derived
/// columns, the fold by the grouping column, the sort keys and the limit of
/// the declaration.
pub open spec fn prepared(table: FrameView, config: &ChartConfig) -> Result<
    FrameView,
    TransformFault,
> {
    pipeline(
        table,
        config.filter,
        config.derive,
        grouping_column(config),
        config.agg,
        config.sort,
        config.limit,
    )
}

/// Runs the pipeline that a declaration asks for. A declaration with a fold
/// groups by its group column, or by its x column where it has none; every
/// other column is folded.
pub fn apply_chart_transformations(frame: Frame, config: &ChartConfig) -> (r: Result<
    Frame,
    TransformError,
>)
    ensures
        yields(r, prepared(frame@, config)),
{
    let none: Option<String> = None;
    let group: &Option<String> = if config.agg.is_none() {
        &none
    } else if config.group_by.is_some() {
        &config.group_by
    } else {
        &config.x
    };
    run_pipeline(frame, &config.filter, &config.derive, group, &config.agg, &config.sort, config.limit)
}

/// Keeps the rows that meet the filter of a declaration.
pub fn apply_filter_config(frame: &Frame, filter: &FilterConfig) -> (r: Result<Frame, TransformError>)
    ensures
        yields(r, filtered(frame@, filter)),
{
    apply_filters(frame, filter)
}

/// The table grouped by a column and folded, the value column being one of
/// the folded columns; the failure where the table lacks the group column
/// or the value column. The group column is looked up first.
pub open spec fn aggregated(
    table: FrameView,
    group_by: Seq<char>,
    value_col: Seq<char>,
    agg: crate::chart_spec::AggregationType,
) -> Result<FrameView, TransformFault> {
    if table.has(group_by) && !table.has(value_col) {
        Err(TransformFault::ColumnNotFound { column: value_col, available: table.names })
    } else {
        grouped(table, group_by, agg)
    }
}

/// Groups the rows by a column and folds the other columns, the value column
/// among them. Both columns must be in the table.
pub fn apply_aggregation(
    frame: &Frame,
    group_by: &String,
    value_col: &String,
    agg_type: &crate::chart_spec::AggregationType,
) -> (r: Result<Frame, TransformError>)
    ensures
        yields(r, aggregated(frame@, group_by@, value_col@, *agg_type)),
{
    if frame.find_column(group_by).is_some() && frame.find_column(value_col).is_none() {
        return Err(column_not_found(frame, value_col));
    }
    apply_grouping(frame, group_by, agg_type)
}

/// Why a chart cannot be made from a table.
#[derive(Debug)]
pub enum ProcessError {
    /// The declaration breaks a rule.
    Validation(ValidationError),
    /// The table lacks a column that the chart needs.
    Columns(LoadError),
    /// The pipeline fails.
    Transform(TransformError),
    /// The chart cannot be laid out.
    Render(RenderError),
}

/// What `process_single_chart` owes for a table and a declaration. The
/// declaration is checked first and its first broken rule reported; then the
/// columns that the chart needs are looked up; then the pipeline runs; then
/// the chart is laid out on the table that the pipeline gives.
pub open spec fn processes(r: Result<RenderPlan, ProcessError>, table: FrameView, config: &ChartConfig) -> bool {
    if first_violation(config) is Some {
        r matches Err(ProcessError::Validation(e)) && first_violation(config) == Some(e@)
    } else if first_absent(table, required_columns(config)) < required_columns(config).len() {
        r matches Err(
            ProcessError::Columns(LoadError::ColumnNotFound { column, available, suggestion }),
        ) && column@ == required_columns(config)[first_absent(table, required_columns(config))]
            && strings_view(available@) == table.names && (match suggestion {
            Some(s) => suggested(table.names, column@) is Some && s@ == table.names[suggested(
                table.names,
                column@,
            )->0],
            None => suggested(table.names, column@) is None,
        })
    } else {
        match prepared(table, config) {
            Err(fault) => r matches Err(ProcessError::Transform(e)) && e@ == fault,
            Ok(ready) => exists|style: ChartStyle|
                #![auto]
                style.is_style_of(theme_of(config)) && match r {
                    Ok(plan) => is_render_plan(&plan, ready, config, surface_of(config), &style)
                        && plan.backend == backend_of(format_of(config)),
                    Err(ProcessError::Render(e)) => chart_fails(
                        e,
                        ready,
                        config,
                        region_surface(chart_region(surface_of(config), legend_side(config))),
                        title_of(config),
                        &style,
                    ),
                    Err(_) => false,
                },
        }
    }
}

/// Makes one chart from a loaded table: checks the declaration, checks that
/// the table has the columns that the chart needs, runs the pipeline and
/// lays out the chart.
pub fn process_single_chart(frame: Frame, chart_config: &ChartConfig) -> (r: Result<
    RenderPlan,
    ProcessError,
>)
    ensures
        processes(r, frame@, chart_config),
{
    if let Err(e) = chart_config.validate() {
        return Err(ProcessError::Validation(e));
    }
    let required: Vec<String> = get_required_columns(chart_config);
    if let Err(e) = validate_columns(&frame, &required) {
        proof {
            let at = first_absent(frame@, strings_view(required@));
            lemma_first_absent_bound(frame@, strings_view(required@));
            match e {
                LoadError::ColumnNotFound { .. } => {
                    assert(strings_view(required@)[at] == required@[at]@);
                },
                _ => {},
            }
        }
        return Err(ProcessError::Columns(e));
    }
    assert(strings_view(required@).len() == required@.len());
    let ready: Frame = match apply_chart_transformations(frame, chart_config) {
        Ok(ready) => ready,
        Err(e) => {
            return Err(ProcessError::Transform(e));
        },
    };
    match render_chart(&ready, chart_config) {
        Ok(plan) => Ok(plan),
        Err(e) => Err(ProcessError::Render(e)),
    }
}

/// The format of a specification file.
#[derive(Debug, Clone, Copy, PartialEq, Eq, Structural)]
pub enum SpecFormat {
    Json,
    Yaml,
}

/// The format of a specification file by its extension: JSON for `json`,
/// YAML for every other file.
pub fn spec_format(extension: &Option<String>) -> (format: SpecFormat)
    ensures
        format == (if extension is Some && extension->0@ == "json"@ {
            SpecFormat::Json
        } else {
            SpecFormat::Yaml
        }),
{
    match extension {
        Some(e) => if *e == String::from_str("json") {
            SpecFormat::Json
        } else {
            SpecFormat::Yaml
        },
        None => SpecFormat::Yaml,
    }
}

/// The directory of the charts of a batch where none is given: the test
/// output of the source tree when run from there, else the `graff` folder
/// on the desktop of the home directory, the current directory standing in
/// for a home that is not known.
pub open spec fn default_output_dir(in_source_tree: bool, home: Option<String>) -> Seq<char> {
    if in_source_tree {
        "tests/output"@
    } else {
        joined(
            joined(
                match home {
                    Some(h) => h@,
                    None => "."@,
                },
                "Desktop"@,
            ),
            "graff"@,
        )
    }
}

fn join_path(directory: &str, name: &str) -> (path: String)
    ensures
        path@ == joined(directory@, name@),
{
    let mut out: Vec<char> = chars_of(directory);
    if out.len() > 0 && out[out.len() - 1] != '/' {
        out.push('/');
    }
    push_str(&mut out, name);
    proof {
        reveal_strlit("/");
        assert("/"@ =~= seq!['/']);
        assert(out@ =~= joined(directory@, name@));
    }
    string_of(&out)
}

/// The directory of the charts of a batch: the one given, or the default.
pub fn batch_output_dir(out: &Option<String>, in_source_tree: bool, home: &Option<String>) -> (dir:
    String)
    ensures
        dir@ == (match *out {
            Some(given) => given@,
            None => default_output_dir(in_source_tree, *home),
        }),
{
    match out {
        Some(given) => given.clone(),
        None => if in_source_tree {
            String::from_str("tests/output")
        } else {
            let desktop: String = match home {
                Some(h) => join_path(h.as_str(), "Desktop"),
                None => join_path(".", "Desktop"),
            };
            join_path(desktop.as_str(), "graff")
        },
    }
}

/// One chart of a batch: its number, counted from one, its name, its data
/// file and its output file.
#[derive(Debug)]
pub struct BatchJob {
    pub number: usize,
    pub name: String,
    pub data_path: String,
    pub output_path: String,
}

/// Why a chart of a batch cannot be planned.
#[derive(Debug, PartialEq, Eq)]
pub enum BatchError {
    /// Neither the chart nor the batch names a data file.
    NoDataSource { name: String },
}

impl BatchError {
    /// The message of the error as a character sequence.
    pub open spec fn text(&self) -> Seq<char> {
        match *self {
            BatchError::NoDataSource { name } => "No data source specified for chart '"@ + name@
                + "'"@,
        }
    }

    /// The message that reports the error.
    pub fn message(&self) -> (s: String)
        ensures
            s@ == self.text(),
    {
        match self {
            BatchError::NoDataSource { name } => {
                let mut out: Vec<char> = chars_of("No data source specified for chart '");
                push_str(&mut out, name.as_str());
                push_str(&mut out, "'");
                string_of(&out)
            },
        }
    }
}

/// The name of the chart at a place of a batch: its title, or `chart_` and
/// its number, counted from one.
pub open spec fn chart_name(config: &ChartConfig, index: int) -> Seq<char> {
    match config.title {
        Some(t) => t@,
        None => "chart_"@ + nat_text((index + 1) as nat),
    }
}

/// The data file of a chart of a batch: its own, or else the default of the
/// batch.
pub open spec fn data_source(spec: &ChartSpec, index: int) -> Option<Seq<char>> {
    if spec.charts@[index].data is Some {
        Some(spec.charts@[index].data->0@)
    } else if spec.data is Some && spec.data->0.default is Some {
        Some(spec.data->0.default->0@)
    } else {
        None
    }
}

/// A text with a hyphen in the place of every space.
pub open spec fn hyphenated(s: Seq<char>) -> Seq<char> {
    Seq::new(
        s.len(),
        |i: int| if s[i] == ' ' {
            '-'
        } else {
            s[i]
        },
    )
}

/// The name of the file of a chart of a batch: its name in lower case with
/// hyphens for spaces, a hyphen, the kind of the chart, a point and the
/// extension of its format.
pub open spec fn batch_file_name(config: &ChartConfig, index: int) -> Seq<char> {
    file_name(
        hyphenated(lowercase(chart_name(config, index))),
        config.chart_type,
        format_of(config),
    )
}

/// A text with a hyphen in the place of every space.
pub fn hyphenate(text: &str) -> (r: String)
    ensures
        r@ == hyphenated(text@),
{
    let chars: Vec<char> = chars_of(text);
    let mut out: Vec<char> = Vec::new();
    let mut i: usize = 0;
    while i < chars.len()
        invariant
            i <= chars.len(),
            out@.len() == i,
            forall|k: int| 0 <= k < i ==> #[trigger] out@[k] == hyphenated(chars@)[k],
        decreases chars.len() - i,
    {
        if chars[i] == ' ' {
            out.push('-');
        } else {
            out.push(chars[i]);
        }
        i += 1;
    }
    assert(out@ =~= hyphenated(chars@));
    string_of(&out)
}

/// Plans one chart of a batch: its name, its data file and its output file
/// in the output directory. A chart without a data file of its own uses the
/// default of the batch; a chart without either cannot be planned.
pub fn plan_batch_chart(spec: &ChartSpec, index: usize, output_dir: &str) -> (r: Result<
    BatchJob,
    BatchError,
>)
    requires
        index < spec.charts@.len(),
    ensures
        match r {
            Ok(job) => {
                &&& job.number == index + 1
                &&& job.name@ == chart_name(&spec.charts@[index as int], index as int)
                &&& data_source(spec, index as int) == Some(job.data_path@)
                &&& job.output_path@ == joined(
                    output_dir@,
                    batch_file_name(&spec.charts@[index as int], index as int),
                )
            },
            Err(BatchError::NoDataSource { name }) => data_source(spec, index as int) is None
                && name@ == chart_name(&spec.charts@[index as int], index as int),
        },
{
    // The count of the charts bounds the number of this chart.
    let count: usize = spec.charts.len();
    let config: &ChartConfig = &spec.charts[index];
    let name: String = match &config.title {
        Some(t) => t.clone(),
        None => {
            let mut out: Vec<char> = chars_of("chart_");
            push_nat(&mut out, (index as u128) + 1);
            string_of(&out)
        },
    };
    let data_path: String = match &config.data {
        Some(path) => path.clone(),
        None => {
            let fallback: Option<&String> = match &spec.data {
                Some(data) => match &data.default {
                    Some(path) => Some(path),
                    None => None,
                },
                None => None,
            };
            match fallback {
                Some(path) => path.clone(),
                None => {
                    return Err(BatchError::NoDataSource { name });
                },
            }
        },
    };
    let lower: String = name.as_str().to_lowercase();
    let stem: String = hyphenate(lower.as_str());
    let format: crate::chart_spec::OutputFormat = match config.format {
        Some(f) => f,
        None => crate::chart_spec::OutputFormat::Png,
    };
    let output_path: String = output_file(output_dir, stem.as_str(), config.chart_type, format);
    Ok(
        BatchJob {
            number: index + 1,
            name,
            data_path,
            output_path,
        },
    )
}

/// Plans the charts of a batch, in the order of the specification: for each
/// chart its job, or why it cannot be planned. A chart that cannot be
/// planned does not stop the charts after it.
pub fn render_batch_charts(spec: &ChartSpec, output_dir: &str) -> (plans: Vec<
    Result<BatchJob, BatchError>,
>)
    ensures
        plans@.len() == spec.charts@.len(),
        forall|i: int|
            0 <= i < plans@.len() ==> match #[trigger] plans@[i] {
                Ok(job) => {
                    &&& job.number == i + 1
                    &&& job.name@ == chart_name(&spec.charts@[i], i)
                    &&& data_source(spec, i) == Some(job.data_path@)
                    &&& job.output_path@ == joined(
                        output_dir@,
                        batch_file_name(&spec.charts@[i], i),
                    )
                },
                Err(BatchError::NoDataSource { name }) => data_source(spec, i) is None && name@
                    == chart_name(&spec.charts@[i], i),
            },
{
    let mut plans: Vec<Result<BatchJob, BatchError>> = Vec::new();
    let mut i: usize = 0;
    while i < spec.charts.len()
        invariant
            i <= spec.charts.len(),
            plans@.len() == i,
            forall|k: int|
                0 <= k < i ==> match #[trigger] plans@[k] {
                    Ok(job) => {
                        &&& job.number == k + 1
                        &&& job.name@ == chart_name(&spec.charts@[k], k)
                        &&& data_source(spec, k) == Some(job.data_path@)
                        &&& job.output_path@ == joined(
                            output_dir@,
                            batch_file_name(&spec.charts@[k], k),
                        )
                    },
                    Err(BatchError::NoDataSource { name }) => data_source(spec, k) is None && name@
                        == chart_name(&spec.charts@[k], k),
                },
        decreases spec.charts.len() - i,
    {
        plans.push(plan_batch_chart(spec, i, output_dir));
        i += 1;
    }
    plans
}

/// The count of the charts of a batch that were made and of those that
/// failed.
#[derive(Debug, Clone, Copy, PartialEq, Eq, Structural)]
pub struct BatchSummary {
    pub successful: usize,
    pub failed: usize,
}

/// The number of the first `n` outcomes that are successes.
pub open spec fn successes(outcomes: Seq<bool>, n: nat) -> nat
    decreases n,
{
    if n == 0 {
        0
    } else if outcomes[n - 1] {
        successes(outcomes, (n - 1) as nat) + 1
    } else {
        successes(outcomes, (n - 1) as nat)
    }
}

/// The number of successes is at most the number of outcomes.
pub proof fn lemma_successes_bound(outcomes: Seq<bool>, n: nat)
    ensures
        successes(outcomes, n) <= n,
    decreases n,
{
    if n > 0 {
        lemma_successes_bound(outcomes, (n - 1) as nat);
    }
}

/// Counts the outcomes of the charts of a batch: every chart is counted
/// once, as made or as failed.
pub fn summarize(outcomes: &Vec<bool>) -> (summary: BatchSummary)
    ensures
        summary.successful == successes(outcomes@, outcomes@.len()),
        summary.successful + summary.failed == outcomes@.len(),
{
    let mut successful: usize = 0;
    let mut failed: usize = 0;
    let mut i: usize = 0;
    while i < outcomes.len()
        invariant
            i <= outcomes.len(),
            successful == successes(outcomes@, i as nat),
            successful + failed == i,
        decreases outcomes.len() - i,
    {
        if outcomes[i] {
            successful += 1;
        } else {
            failed += 1;
        }
        i += 1;
    }
    BatchSummary { successful, failed }
}

impl BatchSummary {
    /// The line that sums up a batch.
    pub open spec fn text(self) -> Seq<char> {
        "\nSummary: "@ + nat_text(self.successful as nat) + " successful, "@ + nat_text(
            self.failed as nat,
        ) + " failed"@
    }

    /// The line that sums up a batch.
    pub fn message(&self) -> (s: String)
        ensures
            s@ == self.text(),
    {
        let mut out: Vec<char> = chars_of("\nSummary: ");
        push_nat(&mut out, self.successful as u128);
        push_str(&mut out, " successful, ");
        push_nat(&mut out, self.failed as u128);
        push_str(&mut out, " failed");
        assert(out@ =~= self.text());
        string_of(&out)
    }

    /// The exit status of a batch: zero where every chart was made, one
    /// where a chart failed.
    pub fn exit_code(&self) -> (code: i32)
        ensures
            code == (if self.failed == 0 {
                0int
            } else {
                1int
            }),
    {
        if self.failed == 0 {
            0
        } else {
            1
        }
    }
}

/// What a command line asks for.
#[derive(Debug)]
pub enum CliAction {
    /// One chart to make.
    Chart(ChartJob),
    /// The charts of a specification file to make.
    Batch(RenderArgs),
}

/// Whether `action` is what the command asks for: for a chart command the
/// job of that command, for the `render` command its arguments.
pub open spec fn is_action(action: &CliAction, cli: &Cli, answer: Option<String>) -> bool {
    match (cli.command, *action) {
        (Commands::Line(args), CliAction::Chart(job)) => is_line_config(
            &job.config,
            &args,
            &cli.theme,
        ) && job.input@ == args.input@ && is_output_path(job.output_path@, args.out, "line"@),
        (Commands::Area(args), CliAction::Chart(job)) => is_area_config(
            &job.config,
            &args,
            &cli.theme,
        ) && job.input@ == args.input@ && is_output_path(job.output_path@, args.out, "area"@),
        (Commands::Bar(args), CliAction::Chart(job)) => is_bar_config(
            &job.config,
            &args,
            &cli.theme,
        ) && job.input@ == args.input@ && is_output_path(job.output_path@, args.out, "bar"@),
        (Commands::BarStacked(args), CliAction::Chart(job)) => is_bar_stacked_config(
            &job.config,
            &args,
            &cli.theme,
        ) && job.input@ == args.input@ && is_output_path(
            job.output_path@,
            args.out,
            "bar-stacked"@,
        ),
        (Commands::Heatmap(args), CliAction::Chart(job)) => is_heatmap_config(
            &job.config,
            &args,
            &cli.theme,
        ) && job.input@ == args.input@ && is_output_path(job.output_path@, args.out, "heatmap"@),
        (Commands::Scatter(args), CliAction::Chart(job)) => is_scatter_config(
            &job.config,
            &args,
            &cli.theme,
        ) && job.input@ == args.input@ && is_output_path(job.output_path@, args.out, "scatter"@),
        (Commands::Retention(args), CliAction::Chart(job)) => is_retention_config(
            &job.config,
            &args,
            &cli.theme,
        ) && job.input@ == args.input@ && is_output_path(
            job.output_path@,
            args.out,
            "retention"@,
        ),
        (Commands::Funnel(args), CliAction::Chart(job)) => funnel_order(&args, answer) is Ok
            && is_funnel_config(&job.config, &args, &cli.theme, funnel_order(&args, answer)->Ok_0)
            && job.input@ == args.input@ && is_output_path(job.output_path@, args.out, "funnel"@),
        (Commands::Render(args), CliAction::Batch(batch)) => batch.spec@ == args.spec@ && same_text(
            batch.data,
            args.data,
        ) && same_text(batch.out, args.out) && batch.parallel == args.parallel,
        _ => false,
    }
}

/// Whether the command has to ask for the step order of a funnel.
pub fn needs_step_order(cli: &Cli) -> (b: bool)
    ensures
        b == (cli.command matches Commands::Funnel(args) && args.step_order is None),
{
    match &cli.command {
        Commands::Funnel(args) => args.step_order.is_none(),
        _ => false,
    }
}

/// Turns a command line into what it asks for. `answer` is what was answered
/// at the prompt for the step order of a funnel, where the command had to
/// ask. Only the funnel command can fail here: without a step, or with a
/// step order that does not fit its steps.
pub fn run(cli: &Cli, answer: &Option<String>) -> (r: Result<CliAction, CliError>)
    ensures
        match r {
            Ok(action) => is_action(&action, cli, *answer),
            Err(e) => cli.command matches Commands::Funnel(args) && (if step_names(
                args.steps@,
            ).len() == 0 {
                e == CliError::NoSteps
            } else {
                funnel_order(&args, *answer) == Err::<Seq<usize>, CliError>(e)
            }),
        },
{
    match &cli.command {
        Commands::Line(args) => Ok(CliAction::Chart(render_line_chart_cli(args, &cli.theme))),
        Commands::Area(args) => Ok(CliAction::Chart(render_area_chart_cli(args, &cli.theme))),
        Commands::Bar(args) => Ok(CliAction::Chart(render_bar_chart_cli(args, &cli.theme))),
        Commands::BarStacked(args) => Ok(
            CliAction::Chart(render_bar_stacked_chart_cli(args, &cli.theme)),
        ),
        Commands::Heatmap(args) => Ok(CliAction::Chart(render_heatmap_chart_cli(args, &cli.theme))),
        Commands::Scatter(args) => Ok(CliAction::Chart(render_scatter_chart_cli(args, &cli.theme))),
        Commands::Retention(args) => Ok(
            CliAction::Chart(render_retention_chart_cli(args, &cli.theme)),
        ),
        Commands::Funnel(args) => match render_funnel_chart_cli(args, &cli.theme, answer) {
            Ok(job) => Ok(CliAction::Chart(job)),
            Err(e) => Err(e),
        },
        Commands::Render(args) => Ok(
            CliAction::Batch(
                RenderArgs {
                    spec: args.spec.clone(),
                    data: copy_text(&args.data),
                    out: copy_text(&args.out),
                    parallel: args.parallel,
                },
            ),
        ),
    }
}

} // verus!
