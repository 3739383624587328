//! One chart from start to end: the surface and its backend, the split into
//! a chart region and a legend region, the chart itself and the legend.

use vstd::prelude::*;
use vstd::string::*;
use crate::chart::area::AreaPlan;
use crate::chart::bar::BarPlan;
use crate::chart::bar_stacked::{MAX_STACKED_ROWS, StackedBarPlan};
use crate::chart::funnel::{drawing_order, drawn_order, funnel_error, FunnelPlan, is_funnel_plan, lemma_in_range, step_count, step_order_error, step_values, validate_step_order};
use crate::chart::heatmap::HeatmapOutcome;
use crate::chart::line::LinePlan;
use crate::chart::retention::RetentionPlan;
use crate::chart::scatter::ScatterPlan;
use crate::chart::{cycle_color, labels_of, read_labels, RenderError, Surface};
use crate::chart_spec::{chart_type_name, ChartConfig, ChartType, LegendPosition, OutputFormat, Theme};
use crate::frame::{Frame, FrameView};
use crate::measure::{read_plotted, sampled};
use crate::sorting::{sort_texts, sorted_texts, strings_of, strings_view};
use crate::styling::{ChartStyle, get_chart_style_with_theme, Rgb};
use crate::text::{alphanumeric, chars_of, lowercase, push_str, slice_of, string_of};

verus! {

/// A rectangle of a surface, in pixels from its top left corner.
#[derive(Debug, Clone, Copy, PartialEq, Eq, Structural)]
pub struct Region {
    pub x: u32,
    pub y: u32,
    pub width: u32,
    pub height: u32,
}

/// The width of a legend beside the chart: a quarter of the surface.
pub open spec fn side_legend_width(width: u32) -> u32 {
    (width / 4) as u32
}

/// The height of a legend above or below the chart: fifteen hundredths of
/// the surface.
pub open spec fn band_legend_height(height: u32) -> u32 {
    (height * 15 / 100) as u32
}

/// The region of the chart for a legend at the given side.
pub open spec fn chart_region(surface: Surface, position: LegendPosition) -> Region {
    let w = side_legend_width(surface.width);
    let h = band_legend_height(surface.height);
    match position {
        LegendPosition::Right => Region {
            x: 0,
            y: 0,
            width: (surface.width - w) as u32,
            height: surface.height,
        },
        LegendPosition::Left => Region {
            x: w,
            y: 0,
            width: (surface.width - w) as u32,
            height: surface.height,
        },
        LegendPosition::Top => Region {
            x: 0,
            y: h,
            width: surface.width,
            height: (surface.height - h) as u32,
        },
        LegendPosition::Bottom => Region {
            x: 0,
            y: 0,
            width: surface.width,
            height: (surface.height - h) as u32,
        },
    }
}

/// The region of the legend at the given side.
pub open spec fn legend_region(surface: Surface, position: LegendPosition) -> Region {
    let w = side_legend_width(surface.width);
    let h = band_legend_height(surface.height);
    match position {
        LegendPosition::Right => Region {
            x: (surface.width - w) as u32,
            y: 0,
            width: w,
            height: surface.height,
        },
        LegendPosition::Left => Region { x: 0, y: 0, width: w, height: surface.height },
        LegendPosition::Top => Region { x: 0, y: 0, width: surface.width, height: h },
        LegendPosition::Bottom => Region {
            x: 0,
            y: (surface.height - h) as u32,
            width: surface.width,
            height: h,
        },
    }
}

/// Whether two regions share no pixel.
pub open spec fn apart(a: Region, b: Region) -> bool {
    a.x + a.width <= b.x || b.x + b.width <= a.x || a.y + a.height <= b.y || b.y + b.height <= a.y
}

/// Whether a region lies within a surface.
pub open spec fn within(a: Region, surface: Surface) -> bool {
    a.x + a.width <= surface.width && a.y + a.height <= surface.height
}

/// The chart region and the legend region share no pixel, lie within the
/// surface and cover it together.
pub proof fn law_regions_tile(surface: Surface, position: LegendPosition)
    ensures
        apart(chart_region(surface, position), legend_region(surface, position)),
        within(chart_region(surface, position), surface),
        within(legend_region(surface, position), surface),
        chart_region(surface, position).width * chart_region(surface, position).height
            + legend_region(surface, position).width * legend_region(surface, position).height
            == surface.width * surface.height,
{
    let w = side_legend_width(surface.width);
    let h = band_legend_height(surface.height);
    assert(w <= surface.width);
    assert(h <= surface.height);
    let c = chart_region(surface, position);
    let l = legend_region(surface, position);
    assert(c.width * c.height + l.width * l.height == surface.width * surface.height)
        by (nonlinear_arith)
        requires
            (c.width + l.width == surface.width && c.height == surface.height && l.height
                == surface.height) || (c.height + l.height == surface.height && c.width
                == surface.width && l.width == surface.width),
    ;
}

/// Splits a surface into the region of the chart and the region of the
/// legend. A legend at the left or right takes a quarter of the width, a
/// legend at the top or bottom fifteen hundredths of the height.
pub fn split_drawing_area(surface: &Surface, legend_position: &LegendPosition) -> (r: (Region, Region))
    ensures
        r.0 == chart_region(*surface, *legend_position),
        r.1 == legend_region(*surface, *legend_position),
{
    let w: u32 = surface.width / 4;
    let h: u32 = ((surface.height as u64) * 15 / 100) as u32;
    match legend_position {
        LegendPosition::Right => (
            Region { x: 0, y: 0, width: surface.width - w, height: surface.height },
            Region { x: surface.width - w, y: 0, width: w, height: surface.height },
        ),
        LegendPosition::Left => (
            Region { x: w, y: 0, width: surface.width - w, height: surface.height },
            Region { x: 0, y: 0, width: w, height: surface.height },
        ),
        LegendPosition::Top => (
            Region { x: 0, y: h, width: surface.width, height: surface.height - h },
            Region { x: 0, y: 0, width: surface.width, height: h },
        ),
        LegendPosition::Bottom => (
            Region { x: 0, y: 0, width: surface.width, height: surface.height - h },
            Region { x: 0, y: surface.height - h, width: surface.width, height: h },
        ),
    }
}

/// The one item of a legend that names a column; no item without a name.
pub open spec fn named_item(binding: Option<String>) -> Seq<Seq<char>> {
    match binding {
        Some(name) => seq![name@],
        None => Seq::empty(),
    }
}

/// Whether the funnel of the table can be drawn with at least one step.
pub open spec fn funnel_drawn(table: FrameView, config: &ChartConfig) -> bool {
    funnel_error(table, config) is None && step_count(table, config) > 0
}

/// The steps at the positions that an order lists, in the order of the list.
pub open spec fn ordered_steps(steps: Seq<String>, order: Seq<usize>) -> Seq<Seq<char>> {
    Seq::new(order.len(), |k: int| steps[order[k] as int]@)
}

/// The steps of a funnel in the order in which they are drawn.
pub open spec fn drawn_steps(table: FrameView, config: &ChartConfig) -> Seq<Seq<char>> {
    ordered_steps(config.steps->0@, drawn_order(config.step_order, step_values(table, config)))
}

/// Whether the declaration has a step order that fits its declared steps: it
/// lists as many positions as there are steps, each below their number.
pub open spec fn order_fits_steps(config: &ChartConfig) -> bool {
    config.steps is Some && config.step_order is Some && step_order_error(
        config.step_order->0@,
        config.steps->0@.len() as usize,
    ) is None
}

/// The items of the legend of a chart. Line, area and bar charts name the y
/// column; a heatmap names its z column, or the y column where it binds no
/// z; a stacked bar chart lists the different groups of the first fifty
/// rows in lexicographic order; a scatter plot gives `Y vs X`; a retention
/// matrix has one fixed item. A funnel with a step order that fits its
/// declared steps lists the steps in that order, whatever the table holds;
/// any other funnel lists its steps in the order in which they are drawn, or
/// as declared where it cannot be drawn.
pub open spec fn legend_items(table: FrameView, config: &ChartConfig) -> Seq<Seq<char>> {
    match config.chart_type {
        ChartType::Line => named_item(config.y),
        ChartType::Area => named_item(config.y),
        ChartType::Bar => named_item(config.y),
        ChartType::Heatmap => if config.z is Some {
            named_item(config.z)
        } else {
            named_item(config.y)
        },
        ChartType::BarStacked => if config.group_by is Some && table.has(config.group_by->0@) {
            sorted_texts(
                labels_of(
                    table.column(config.group_by->0@),
                    sampled(table.height(), MAX_STACKED_ROWS as nat),
                ),
            )
        } else {
            Seq::empty()
        },
        ChartType::Scatter => if config.x is Some && config.y is Some {
            seq![config.y->0@ + " vs "@ + config.x->0@]
        } else {
            Seq::empty()
        },
        ChartType::Funnel => if config.steps is None {
            Seq::empty()
        } else if order_fits_steps(config) {
            ordered_steps(config.steps->0@, config.step_order->0@)
        } else if funnel_drawn(table, config) {
            drawn_steps(table, config)
        } else {
            strings_view(config.steps->0@)
        },
        ChartType::Retention => seq!["Retention %"@],
    }
}

/// A step order that fits the declared steps reorders the legend of a
/// funnel: item `k` is the step at position `step_order[k]`, whatever the
/// table holds.
pub proof fn law_step_order_reorders_legend(table: FrameView, config: &ChartConfig)
    requires
        config.chart_type == ChartType::Funnel,
        order_fits_steps(config),
    ensures
        legend_items(table, config).len() == config.step_order->0@.len(),
        forall|k: int|
            0 <= k < config.step_order->0@.len() ==> #[trigger] legend_items(table, config)[k]
                == config.steps->0@[config.step_order->0@[k] as int]@,
        forall|k: int|
            0 <= k < config.step_order->0@.len() ==> (#[trigger] config.step_order->0@[k])
                < config.steps->0@.len(),
{
    lemma_in_range(config.step_order->0@, config.steps->0@.len() as usize);
}

/// The legend of a funnel names the steps as the segments do, place by
/// place: a declared step order reorders both alike, and without one both
/// follow the falling values.
pub proof fn law_funnel_legend_follows_segments(
    plan: &FunnelPlan,
    table: FrameView,
    config: &ChartConfig,
    surface: Surface,
    title: Seq<char>,
    palette: Seq<Rgb>,
)
    requires
        config.chart_type == ChartType::Funnel,
        config.steps is Some,
        order_fits_steps(config) || funnel_drawn(table, config),
        is_funnel_plan(
            plan,
            table,
            config,
            surface,
            title,
            palette,
            drawn_order(config.step_order, step_values(table, config)),
        ),
    ensures
        legend_items(table, config).len() == plan.segments@.len(),
        forall|at: int|
            0 <= at < plan.segments@.len() ==> legend_items(table, config)[at]
                == (#[trigger] plan.segments@[at]).name@,
{
}

fn copy_strings(source: &Vec<String>) -> (copy: Vec<String>)
    ensures
        strings_view(copy@) == strings_view(source@),
{
    let mut copy: Vec<String> = Vec::new();
    let mut i: usize = 0;
    while i < source.len()
        invariant
            i <= source.len(),
            copy@.len() == i,
            forall|k: int| 0 <= k < i ==> (#[trigger] copy@[k])@ == source@[k]@,
        decreases source.len() - i,
    {
        copy.push(source[i].clone());
        i += 1;
    }
    assert(strings_view(copy@) =~= strings_view(source@));
    copy
}

fn named(binding: &Option<String>) -> (items: Vec<String>)
    ensures
        strings_view(items@) == named_item(*binding),
{
    let mut items: Vec<String> = Vec::new();
    if let Some(name) = binding {
        items.push(name.clone());
    }
    assert(strings_view(items@) =~= named_item(*binding));
    items
}

fn pick_steps(steps: &Vec<String>, order: &Vec<usize>) -> (items: Vec<String>)
    requires
        forall|k: int| 0 <= k < order@.len() ==> #[trigger] order@[k] < steps@.len(),
    ensures
        strings_view(items@) == ordered_steps(steps@, order@),
{
    let mut items: Vec<String> = Vec::new();
    let mut i: usize = 0;
    while i < order.len()
        invariant
            i <= order.len(),
            forall|k: int| 0 <= k < order@.len() ==> #[trigger] order@[k] < steps@.len(),
            items@.len() == i,
            forall|k: int| 0 <= k < i ==> (#[trigger] items@[k])@ == steps@[order@[k] as int]@,
        decreases order.len() - i,
    {
        items.push(steps[order[i]].clone());
        i += 1;
    }
    assert(strings_view(items@) =~= ordered_steps(steps@, order@));
    items
}

fn funnel_items(frame: &Frame, config: &ChartConfig, steps: &Vec<String>) -> (items: Vec<String>)
    requires
        config.steps == Some(*steps),
        config.chart_type == ChartType::Funnel,
    ensures
        strings_view(items@) == legend_items(frame@, config),
{
    if let Some(declared) = &config.step_order {
        if validate_step_order(declared, steps.len()).is_ok() {
            proof {
                lemma_in_range(declared@, steps@.len() as usize);
            }
            return pick_steps(steps, declared);
        }
    }
    let column: Option<usize> = match &config.values {
        Some(name) => frame.find_column(name),
        None => None,
    };
    let height: usize = frame.height();
    let count: usize = if steps.len() < height {
        steps.len()
    } else {
        height
    };
    match column {
        Some(c) => {
            if count == 0 {
                return copy_strings(steps);
            }
            let values: Vec<i128> = read_plotted(frame, c, count);
            match drawing_order(&config.step_order, &values) {
                Ok(order) => pick_steps(steps, &order),
                Err(_) => copy_strings(steps),
            }
        },
        None => copy_strings(steps),
    }
}

/// Lists the items of the legend of a chart.
pub fn get_legend_items(frame: &Frame, config: &ChartConfig) -> (items: Vec<String>)
    ensures
        strings_view(items@) == legend_items(frame@, config),
{
    match config.chart_type {
        ChartType::Line => named(&config.y),
        ChartType::Area => named(&config.y),
        ChartType::Bar => named(&config.y),
        ChartType::Heatmap => if config.z.is_some() {
            named(&config.z)
        } else {
            named(&config.y)
        },
        ChartType::BarStacked => {
            let column: Option<usize> = match &config.group_by {
                Some(name) => frame.find_column(name),
                None => None,
            };
            match column {
                Some(c) => {
                    let height: usize = frame.height();
                    let n: usize = if height < MAX_STACKED_ROWS {
                        height
                    } else {
                        MAX_STACKED_ROWS
                    };
                    let labels: Vec<Vec<char>> = read_labels(frame, c, n);
                    let groups: Vec<Vec<char>> = sort_texts(&labels);
                    strings_of(&groups)
                },
                None => {
                    let items: Vec<String> = Vec::new();
                    assert(strings_view(items@) =~= Seq::<Seq<char>>::empty());
                    items
                },
            }
        },
        ChartType::Scatter => {
            let mut items: Vec<String> = Vec::new();
            match (&config.x, &config.y) {
                (Some(x), Some(y)) => {
                    let mut text: Vec<char> = chars_of(y.as_str());
                    push_str(&mut text, " vs ");
                    push_str(&mut text, x.as_str());
                    items.push(string_of(&text));
                    assert(strings_view(items@) =~= seq![y@ + " vs "@ + x@]);
                },
                _ => {
                    assert(strings_view(items@) =~= Seq::<Seq<char>>::empty());
                },
            }
            items
        },
        ChartType::Funnel => match &config.steps {
            Some(steps) => funnel_items(frame, config, steps),
            None => {
                let items: Vec<String> = Vec::new();
                assert(strings_view(items@) =~= Seq::<Seq<char>>::empty());
                items
            },
        },
        ChartType::Retention => {
            let mut items: Vec<String> = Vec::new();
            items.push(String::from_str("Retention %"));
            assert(strings_view(items@) =~= seq!["Retention %"@]);
            items
        },
    }
}

/// One entry of a legend: a colour swatch and a text, with their places in
/// the legend region in pixels.
#[derive(Debug)]
pub struct LegendEntry {
    pub text: String,
    pub color: Rgb,
    pub left: i128,
    pub top: i128,
    pub right: i128,
    pub bottom: i128,
    pub text_x: i128,
    pub text_y: i128,
}

/// What to draw for a legend: its background and its entries from the top
/// down.
#[derive(Debug)]
pub struct LegendPlan {
    pub background: Rgb,
    pub entries: Vec<LegendEntry>,
}

/// The characters that fit a legend of the given width: the width less
/// sixty pixels for the swatch and the padding, at eight pixels a character.
pub open spec fn legend_budget(width: u32) -> int {
    if width <= 60 {
        0
    } else {
        (width - 60) / 8
    }
}

/// The text of a legend entry: the item where it fits the budget, or where
/// the budget is of ten characters or fewer; else what of the item fits
/// before three dots.
pub open spec fn display_text(item: Seq<char>, width: u32) -> Seq<char> {
    if item.len() > legend_budget(width) && legend_budget(width) > 10 {
        item.take(legend_budget(width) - 3) + "..."@
    } else {
        item
    }
}

/// Whether `entry` is the entry at place `at` of a legend for `item`: the
/// swatch fifteen pixels high and twenty wide, thirty pixels below the top
/// for the first entry and thirty-five further for each next one, in colour
/// `at` of the palette's cycle, and the text to its right.
pub open spec fn is_legend_entry(
    entry: &LegendEntry,
    item: Seq<char>,
    at: int,
    width: u32,
    palette: Seq<Rgb>,
) -> bool {
    &&& entry.text@ == display_text(item, width)
    &&& entry.color == cycle_color(palette, at)
    &&& entry.left == 15
    &&& entry.right == 35
    &&& entry.top == 30 + 35 * at
    &&& entry.bottom == entry.top + 15
    &&& entry.text_x == 45
    &&& entry.text_y == entry.top + 12
}

/// Whether `plan` is the legend of the items in a region of the given width.
pub open spec fn is_legend_plan(
    plan: &LegendPlan,
    items: Seq<Seq<char>>,
    width: u32,
    style: &ChartStyle,
) -> bool {
    &&& plan.background == style.colors.background.chart
    &&& plan.entries@.len() == items.len()
    &&& forall|at: int|
        0 <= at < items.len() ==> is_legend_entry(
            #[trigger] &plan.entries@[at],
            items[at],
            at,
            width,
            style.colors.primary@,
        )
}

fn shorten(item: &String, width: u32) -> (text: String)
    ensures
        text@ == display_text(item@, width),
{
    let budget: usize = if width <= 60 {
        0
    } else {
        ((width - 60) / 8) as usize
    };
    let chars: Vec<char> = chars_of(item.as_str());
    if chars.len() > budget && budget > 10 {
        let mut out: Vec<char> = slice_of(&chars, 0, budget - 3);
        push_str(&mut out, "...");
        assert(chars@.subrange(0, budget - 3) =~= chars@.take(budget - 3));
        string_of(&out)
    } else {
        item.clone()
    }
}

/// Lays out the legend of the items in a region of the given width: one
/// entry per item from the top down, each with a swatch in the colour of its
/// place and the item's text, cut to what fits the region.
pub fn render_external_legend(items: &Vec<String>, legend_width: u32, style: &ChartStyle) -> (plan:
    LegendPlan)
    ensures
        is_legend_plan(&plan, strings_view(items@), legend_width, style),
{
    let mut entries: Vec<LegendEntry> = Vec::new();
    let mut at: usize = 0;
    while at < items.len()
        invariant
            at <= items.len(),
            entries@.len() == at,
            forall|k: int|
                0 <= k < at ==> is_legend_entry(
                    #[trigger] &entries@[k],
                    items@[k]@,
                    k,
                    legend_width,
                    style.colors.primary@,
                ),
        decreases items.len() - at,
    {
        let top: i128 = 30 + 35 * (at as i128);
        entries.push(
            LegendEntry {
                text: shorten(&items[at], legend_width),
                color: style.get_primary_color(at),
                left: 15,
                top,
                right: 35,
                bottom: top + 15,
                text_x: 45,
                text_y: top + 12,
            },
        );
        at += 1;
    }
    LegendPlan { background: style.colors.background.chart, entries }
}

/// The character that a file name takes for a character of a title: the
/// character itself where it is a letter, a number, a hyphen or an
/// underscore, else a hyphen.
pub open spec fn safe_char(c: char) -> char {
    if alphanumeric(c) || c == '-' || c == '_' {
        c
    } else {
        '-'
    }
}

/// The title with every character made safe for a file name.
pub open spec fn safe_title(title: Seq<char>) -> Seq<char> {
    Seq::new(title.len(), |i: int| safe_char(title[i]))
}

/// The extension of the files of a format.
pub open spec fn extension(format: OutputFormat) -> Seq<char> {
    match format {
        OutputFormat::Png => "png"@,
        OutputFormat::Svg => "svg"@,
        OutputFormat::Pdf => "pdf"@,
    }
}

/// The format of a declaration: PNG unless declared otherwise.
pub open spec fn format_of(config: &ChartConfig) -> OutputFormat {
    match config.format {
        Some(f) => f,
        None => OutputFormat::Png,
    }
}

/// The name of a file for a stem, a kind of chart and a format: the stem, a
/// hyphen, the kind, a point and the extension of the format.
pub open spec fn file_name(stem: Seq<char>, chart_type: ChartType, format: OutputFormat) -> Seq<
    char,
> {
    stem + "-"@ + chart_type_name(chart_type) + "."@ + extension(format)
}

/// The name of the file of a chart: the title made safe and put in lower
/// case (`chart` without a title), a hyphen, the kind of the chart, a point
/// and the extension of the format.
pub open spec fn output_name(config: &ChartConfig) -> Seq<char> {
    file_name(
        lowercase(
            safe_title(
                match config.title {
                    Some(t) => t@,
                    None => "chart"@,
                },
            ),
        ),
        config.chart_type,
        format_of(config),
    )
}

/// A file name within a directory: the directory, a slash unless the
/// directory is empty or ends with one, and the name.
pub open spec fn joined(directory: Seq<char>, name: Seq<char>) -> Seq<char> {
    if directory.len() == 0 {
        name
    } else if directory.last() == '/' {
        directory + name
    } else {
        directory + "/"@ + name
    }
}

fn format_extension(format: &OutputFormat) -> (s: &'static str)
    ensures
        s@ == extension(*format),
{
    match format {
        OutputFormat::Png => "png",
        OutputFormat::Svg => "svg",
        OutputFormat::Pdf => "pdf",
    }
}

/// Names a file within a directory for a stem, a kind of chart and a
/// format: `directory/stem-Kind.extension`.
pub fn output_file(directory: &str, stem: &str, chart_type: ChartType, format: OutputFormat) -> (path:
    String)
    ensures
        path@ == joined(directory@, file_name(stem@, chart_type, format)),
{
    let mut out: Vec<char> = chars_of(directory);
    if out.len() > 0 && out[out.len() - 1] != '/' {
        out.push('/');
    }
    let ghost head = out@;
    push_str(&mut out, stem);
    push_str(&mut out, "-");
    push_str(&mut out, chart_type.name());
    push_str(&mut out, ".");
    push_str(&mut out, format_extension(&format));
    proof {
        reveal_strlit("/");
        assert("/"@ =~= seq!['/']);
        assert(out@ =~= head + file_name(stem@, chart_type, format));
        assert(out@ =~= joined(directory@, file_name(stem@, chart_type, format)));
    }
    string_of(&out)
}

/// Names the file of a chart within an output directory.
pub fn generate_output_filename(config: &ChartConfig, output_dir: &str) -> (path: String)
    ensures
        path@ == joined(output_dir@, output_name(config)),
{
    let title: Vec<char> = match &config.title {
        Some(t) => chars_of(t.as_str()),
        None => chars_of("chart"),
    };
    let mut safe: Vec<char> = Vec::new();
    let mut i: usize = 0;
    while i < title.len()
        invariant
            i <= title.len(),
            safe@.len() == i,
            forall|k: int| 0 <= k < i ==> #[trigger] safe@[k] == safe_char(title@[k]),
        decreases title.len() - i,
    {
        let c: char = title[i];
        if c.is_alphanumeric() || c == '-' || c == '_' {
            safe.push(c);
        } else {
            safe.push('-');
        }
        i += 1;
    }
    assert(safe@ =~= safe_title(title@));
    let safe_text: String = string_of(&safe);
    let lower: String = safe_text.as_str().to_lowercase();
    let format: OutputFormat = match config.format {
        Some(f) => f,
        None => OutputFormat::Png,
    };
    output_file(output_dir, lower.as_str(), config.chart_type, format)
}

/// The kind of backend that draws a surface.
#[derive(Debug, Clone, Copy, PartialEq, Eq, Structural)]
pub enum Backend {
    /// A raster image.
    Bitmap,
    /// A vector image.
    Svg,
}

/// The plan of the chart proper, by kind.
#[derive(Debug)]
pub enum ChartPlan {
    Line(LinePlan),
    Area(AreaPlan),
    Bar(BarPlan),
    BarStacked(StackedBarPlan),
    Heatmap(HeatmapOutcome),
    Scatter(ScatterPlan),
    Funnel(FunnelPlan),
    Retention(RetentionPlan),
}

/// What to draw for one chart: the surface and its backend, the background
/// of the whole surface, the regions of chart and legend, the chart (none
/// where the data gives nothing to draw) and the legend.
#[derive(Debug)]
pub struct RenderPlan {
    pub surface: Surface,
    pub backend: Backend,
    pub background: Rgb,
    pub title: String,
    pub chart_region: Region,
    pub legend_region: Region,
    pub chart: Option<ChartPlan>,
    pub legend: LegendPlan,
}

/// The surface of a declaration: 800 by 600 pixels unless declared
/// otherwise.
pub open spec fn surface_of(config: &ChartConfig) -> Surface {
    Surface {
        width: match config.width {
            Some(w) => w,
            None => 800,
        },
        height: match config.height {
            Some(h) => h,
            None => 600,
        },
    }
}

/// The backend of a format: SVG is drawn as a vector image, PNG and PDF as a
/// raster image.
pub open spec fn backend_of(format: OutputFormat) -> Backend {
    match format {
        OutputFormat::Svg => Backend::Svg,
        _ => Backend::Bitmap,
    }
}

/// The theme of a declaration: light unless declared otherwise.
pub open spec fn theme_of(config: &ChartConfig) -> Theme {
    match config.theme {
        Some(t) => t,
        None => Theme::Light,
    }
}

/// The side of the legend of a declaration: the right unless declared
/// otherwise.
pub open spec fn legend_side(config: &ChartConfig) -> LegendPosition {
    match config.legend_position {
        Some(p) => p,
        None => LegendPosition::Right,
    }
}

/// The title of a declaration: `Chart` unless declared otherwise.
pub open spec fn title_of(config: &ChartConfig) -> Seq<char> {
    match config.title {
        Some(t) => t@,
        None => "Chart"@,
    }
}

/// The surface that the chart proper is drawn on: as large as its region.
pub open spec fn region_surface(region: Region) -> Surface {
    Surface { width: region.width, height: region.height }
}

/// Whether `e` is the failure of the chart of the declaration's kind.
pub open spec fn chart_fails(
    e: RenderError,
    table: FrameView,
    config: &ChartConfig,
    surface: Surface,
    title: Seq<char>,
    style: &ChartStyle,
) -> bool {
    match config.chart_type {
        ChartType::Line => crate::chart::line::renders(Err(e), table, config, surface, title, style),
        ChartType::Area => crate::chart::area::renders(Err(e), table, config, surface, title, style),
        ChartType::Bar => crate::chart::bar::renders(Err(e), table, config, surface, title, style),
        ChartType::BarStacked => crate::chart::bar_stacked::renders(
            Err(e),
            table,
            config,
            surface,
            title,
            style,
        ),
        ChartType::Heatmap => crate::chart::heatmap::renders(
            Err(e),
            table,
            config,
            surface,
            title,
            style,
        ),
        ChartType::Scatter => crate::chart::scatter::renders(
            Err(e),
            table,
            config,
            surface,
            title,
            style,
        ),
        ChartType::Funnel => crate::chart::funnel::renders(
            Err(e),
            table,
            config,
            surface,
            title,
            style,
        ),
        ChartType::Retention => crate::chart::retention::renders(
            Err(e),
            table,
            config,
            surface,
            title,
            style,
        ),
    }
}

/// Whether `chart` is what the renderer of the declaration's kind gives:
/// its plan, or nothing where the data gives nothing to draw.
pub open spec fn chart_drawn(
    chart: Option<ChartPlan>,
    table: FrameView,
    config: &ChartConfig,
    surface: Surface,
    title: Seq<char>,
    style: &ChartStyle,
) -> bool {
    match (config.chart_type, chart) {
        (ChartType::Line, None) => crate::chart::line::renders(
            Ok(None),
            table,
            config,
            surface,
            title,
            style,
        ),
        (ChartType::Line, Some(ChartPlan::Line(p))) => crate::chart::line::renders(
            Ok(Some(p)),
            table,
            config,
            surface,
            title,
            style,
        ),
        (ChartType::Area, None) => crate::chart::area::renders(
            Ok(None),
            table,
            config,
            surface,
            title,
            style,
        ),
        (ChartType::Area, Some(ChartPlan::Area(p))) => crate::chart::area::renders(
            Ok(Some(p)),
            table,
            config,
            surface,
            title,
            style,
        ),
        (ChartType::Bar, None) => crate::chart::bar::renders(
            Ok(None),
            table,
            config,
            surface,
            title,
            style,
        ),
        (ChartType::Bar, Some(ChartPlan::Bar(p))) => crate::chart::bar::renders(
            Ok(Some(p)),
            table,
            config,
            surface,
            title,
            style,
        ),
        (ChartType::BarStacked, None) => crate::chart::bar_stacked::renders(
            Ok(None),
            table,
            config,
            surface,
            title,
            style,
        ),
        (ChartType::BarStacked, Some(ChartPlan::BarStacked(p))) =>
            crate::chart::bar_stacked::renders(Ok(Some(p)), table, config, surface, title, style),
        (ChartType::Heatmap, None) => crate::chart::heatmap::renders(
            Ok(None),
            table,
            config,
            surface,
            title,
            style,
        ),
        (ChartType::Heatmap, Some(ChartPlan::Heatmap(p))) => crate::chart::heatmap::renders(
            Ok(Some(p)),
            table,
            config,
            surface,
            title,
            style,
        ),
        (ChartType::Scatter, None) => crate::chart::scatter::renders(
            Ok(None),
            table,
            config,
            surface,
            title,
            style,
        ),
        (ChartType::Scatter, Some(ChartPlan::Scatter(p))) => crate::chart::scatter::renders(
            Ok(Some(p)),
            table,
            config,
            surface,
            title,
            style,
        ),
        (ChartType::Funnel, None) => crate::chart::funnel::renders(
            Ok(None),
            table,
            config,
            surface,
            title,
            style,
        ),
        (ChartType::Funnel, Some(ChartPlan::Funnel(p))) => crate::chart::funnel::renders(
            Ok(Some(p)),
            table,
            config,
            surface,
            title,
            style,
        ),
        (ChartType::Retention, None) => crate::chart::retention::renders(
            Ok(None),
            table,
            config,
            surface,
            title,
            style,
        ),
        (ChartType::Retention, Some(ChartPlan::Retention(p))) => crate::chart::retention::renders(
            Ok(Some(p)),
            table,
            config,
            surface,
            title,
            style,
        ),
        _ => false,
    }
}

/// Whether `plan` is what to draw for the table and the declaration on the
/// given surface, in the given style: the canvas background of the style,
/// the declared title, the regions for the declared side of the legend, the
/// chart of the declared kind laid out on its region, and the legend of the
/// chart's items.
pub open spec fn is_render_plan(
    plan: &RenderPlan,
    table: FrameView,
    config: &ChartConfig,
    surface: Surface,
    style: &ChartStyle,
) -> bool {
    &&& plan.surface == surface
    &&& plan.background == style.colors.background.canvas
    &&& plan.title@ == title_of(config)
    &&& plan.chart_region == chart_region(surface, legend_side(config))
    &&& plan.legend_region == legend_region(surface, legend_side(config))
    &&& chart_drawn(
        plan.chart,
        table,
        config,
        region_surface(plan.chart_region),
        title_of(config),
        style,
    )
    &&& is_legend_plan(&plan.legend, legend_items(table, config), plan.legend_region.width, style)
}

fn dispatch(
    frame: &Frame,
    config: &ChartConfig,
    surface: &Surface,
    title: &str,
    legend_position: &LegendPosition,
    style: &ChartStyle,
) -> (r: Result<Option<ChartPlan>, RenderError>)
    ensures
        match r {
            Ok(chart) => chart_drawn(chart, frame@, config, *surface, title@, style),
            Err(e) => chart_fails(e, frame@, config, *surface, title@, style),
        },
{
    match config.chart_type {
        ChartType::Line => match crate::chart::line::render(
            frame,
            config,
            surface,
            title,
            legend_position,
            style,
        ) {
            Ok(Some(p)) => Ok(Some(ChartPlan::Line(p))),
            Ok(None) => Ok(None),
            Err(e) => Err(e),
        },
        ChartType::Area => match crate::chart::area::render(
            frame,
            config,
            surface,
            title,
            legend_position,
            style,
        ) {
            Ok(Some(p)) => Ok(Some(ChartPlan::Area(p))),
            Ok(None) => Ok(None),
            Err(e) => Err(e),
        },
        ChartType::Bar => match crate::chart::bar::render(
            frame,
            config,
            surface,
            title,
            legend_position,
            style,
        ) {
            Ok(Some(p)) => Ok(Some(ChartPlan::Bar(p))),
            Ok(None) => Ok(None),
            Err(e) => Err(e),
        },
        ChartType::BarStacked => match crate::chart::bar_stacked::render(
            frame,
            config,
            surface,
            title,
            legend_position,
            style,
        ) {
            Ok(Some(p)) => Ok(Some(ChartPlan::BarStacked(p))),
            Ok(None) => Ok(None),
            Err(e) => Err(e),
        },
        ChartType::Heatmap => match crate::chart::heatmap::render(
            frame,
            config,
            surface,
            title,
            legend_position,
            style,
        ) {
            Ok(Some(p)) => Ok(Some(ChartPlan::Heatmap(p))),
            Ok(None) => Ok(None),
            Err(e) => Err(e),
        },
        ChartType::Scatter => match crate::chart::scatter::render(
            frame,
            config,
            surface,
            title,
            legend_position,
            style,
        ) {
            Ok(Some(p)) => Ok(Some(ChartPlan::Scatter(p))),
            Ok(None) => Ok(None),
            Err(e) => Err(e),
        },
        ChartType::Funnel => match crate::chart::funnel::render(
            frame,
            config,
            surface,
            title,
            legend_position,
            style,
        ) {
            Ok(Some(p)) => Ok(Some(ChartPlan::Funnel(p))),
            Ok(None) => Ok(None),
            Err(e) => Err(e),
        },
        ChartType::Retention => match crate::chart::retention::render(
            frame,
            config,
            surface,
            title,
            legend_position,
            style,
        ) {
            Ok(Some(p)) => Ok(Some(ChartPlan::Retention(p))),
            Ok(None) => Ok(None),
            Err(e) => Err(e),
        },
    }
}

/// Lays out one chart on a surface in a style: the background, the split
/// into chart region and legend region, the chart of the declared kind on
/// its region, and the legend. The backend of the plan is the raster one;
/// `render_chart` picks it by the format.
pub fn render_chart_impl(frame: &Frame, config: &ChartConfig, surface: &Surface, style: &ChartStyle) -> (r:
    Result<RenderPlan, RenderError>)
    ensures
        match r {
            Ok(plan) => is_render_plan(&plan, frame@, config, *surface, style) && plan.backend
                == Backend::Bitmap,
            Err(e) => chart_fails(
                e,
                frame@,
                config,
                region_surface(chart_region(*surface, legend_side(config))),
                title_of(config),
                style,
            ),
        },
{
    let title: String = match &config.title {
        Some(t) => t.clone(),
        None => String::from_str("Chart"),
    };
    let side: LegendPosition = match config.legend_position {
        Some(p) => p,
        None => LegendPosition::Right,
    };
    let (chart_area, legend_area): (Region, Region) = split_drawing_area(surface, &side);
    let chart_surface: Surface = Surface { width: chart_area.width, height: chart_area.height };
    let chart: Option<ChartPlan> = match dispatch(
        frame,
        config,
        &chart_surface,
        title.as_str(),
        &side,
        style,
    ) {
        Ok(chart) => chart,
        Err(e) => {
            return Err(e);
        },
    };
    let items: Vec<String> = get_legend_items(frame, config);
    let legend: LegendPlan = render_external_legend(&items, legend_area.width, style);
    Ok(
        RenderPlan {
            surface: *surface,
            backend: Backend::Bitmap,
            background: style.colors.background.canvas,
            title,
            chart_region: chart_area,
            legend_region: legend_area,
            chart,
            legend,
        },
    )
}

/// Lays out one chart for a table and a declaration: on a surface of the
/// declared size, 800 by 600 pixels by default; for the backend of the
/// declared format, PNG by default; in the style of the declared theme, the
/// light one by default.
pub fn render_chart(frame: &Frame, config: &ChartConfig) -> (r: Result<RenderPlan, RenderError>)
    ensures
        exists|style: ChartStyle|
            #![auto]
            style.is_style_of(theme_of(config)) && match r {
                Ok(plan) => is_render_plan(&plan, frame@, config, surface_of(config), &style)
                    && plan.backend == backend_of(format_of(config)),
                Err(e) => chart_fails(
                    e,
                    frame@,
                    config,
                    region_surface(chart_region(surface_of(config), legend_side(config))),
                    title_of(config),
                    &style,
                ),
            },
{
    let surface: Surface = Surface {
        width: match config.width {
            Some(w) => w,
            None => 800,
        },
        height: match config.height {
            Some(h) => h,
            None => 600,
        },
    };
    let theme: Theme = match config.theme {
        Some(t) => t,
        None => Theme::Light,
    };
    let style: ChartStyle = get_chart_style_with_theme(&theme);
    let backend: Backend = match config.format {
        Some(OutputFormat::Svg) => Backend::Svg,
        _ => Backend::Bitmap,
    };
    match render_chart_impl(frame, config, &surface, &style) {
        Ok(plan) => {
            let with_backend: RenderPlan = RenderPlan {
                surface: plan.surface,
                backend,
                background: plan.background,
                title: plan.title,
                chart_region: plan.chart_region,
                legend_region: plan.legend_region,
                chart: plan.chart,
                legend: plan.legend,
            };
            assert(is_render_plan(&with_backend, frame@, config, surface_of(config), &style));
            Ok(with_backend)
        },
        Err(e) => Err(e),
    }
}

} // verus!
