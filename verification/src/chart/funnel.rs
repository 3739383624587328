//! Funnel charts: one segment per step, stacked from the top down, each as
//! wide as its value is to the largest value.

use vstd::prelude::*;
use vstd::string::*;
use crate::chart::{cycle_color, resolve, resolved, Binding, RenderError, Surface};
use crate::chart_spec::{ChartConfig, ChartType, LegendPosition, ValueLabelPosition};
use crate::frame::{Frame, FrameView, MEASURE_LIMIT};
use crate::measure::{floor_div, lemma_max_from, max_from, max_of, plotted_cells, read_plotted, within_limit};
use crate::sorting::{keys_view, sorted_order, stable_order_of, KeyPart, KeyPartView};
use crate::styling::{ChartStyle, Rgb};
use crate::text::{chars_of, int_text, push_int, push_str, round_units, rounded_units, string_of};

verus! {

/// One segment of a funnel: its step, its value in thousandths, its
/// rectangle in pixels, its colour, and its label with the place where the
/// label starts.
#[derive(Debug)]
pub struct Segment {
    pub name: String,
    pub value: i128,
    pub left: i64,
    pub top: i64,
    pub right: i64,
    pub bottom: i64,
    pub color: Rgb,
    pub label: String,
    pub label_x: i64,
    pub label_y: i64,
}

/// What to draw for a funnel chart: the background, the title at its place,
/// and the segments from the top down.
#[derive(Debug)]
pub struct FunnelPlan {
    pub title: String,
    pub title_x: i64,
    pub title_y: i64,
    pub background: Rgb,
    pub segments: Vec<Segment>,
}

/// The first position of a step order that is at or past the number of steps.
pub open spec fn first_out_of_range(order: Seq<usize>, steps: usize) -> Option<usize>
    decreases order.len(),
{
    if order.len() == 0 {
        None
    } else if order[0] >= steps {
        Some(order[0])
    } else {
        first_out_of_range(order.drop_first(), steps)
    }
}

/// Why a step order does not fit a number of steps: it must list as many
/// positions as there are steps, each below the number of steps.
pub open spec fn step_order_error(order: Seq<usize>, steps: usize) -> Option<RenderError> {
    if order.len() != steps {
        Some(RenderError::StepOrderLength { given: order.len() as usize, steps })
    } else if first_out_of_range(order, steps) is Some {
        Some(RenderError::StepOrderIndex { index: first_out_of_range(order, steps)->0, steps })
    } else {
        None
    }
}

/// A step order without an error lists positions below the number of steps.
pub proof fn lemma_in_range(order: Seq<usize>, steps: usize)
    requires
        first_out_of_range(order, steps) is None,
    ensures
        forall|k: int| 0 <= k < order.len() ==> #[trigger] order[k] < steps,
    decreases order.len(),
{
    if order.len() > 0 {
        let rest = order.drop_first();
        lemma_in_range(rest, steps);
        assert forall|k: int| 0 <= k < order.len() implies #[trigger] order[k] < steps by {
            if k > 0 {
                assert(order[k] == rest[k - 1]);
            }
        }
    }
}

/// Checks a step order against a number of steps: it must list as many
/// positions as there are steps, and every position must be below that
/// number. The first fault is reported.
pub fn validate_step_order(step_order: &Vec<usize>, num_steps: usize) -> (r: Result<(), RenderError>)
    ensures
        match r {
            Ok(_) => step_order_error(step_order@, num_steps) is None,
            Err(e) => step_order_error(step_order@, num_steps) == Some(e),
        },
{
    if step_order.len() != num_steps {
        return Err(RenderError::StepOrderLength { given: step_order.len(), steps: num_steps });
    }
    let mut k: usize = 0;
    assert(step_order@.skip(0) =~= step_order@);
    while k < step_order.len()
        invariant
            k <= step_order.len(),
            step_order@.len() == num_steps,
            first_out_of_range(step_order@, num_steps) == first_out_of_range(
                step_order@.skip(k as int),
                num_steps,
            ),
        decreases step_order.len() - k,
    {
        assert(step_order@.skip(k as int)[0] == step_order@[k as int]);
        if step_order[k] >= num_steps {
            return Err(RenderError::StepOrderIndex { index: step_order[k], steps: num_steps });
        }
        assert(step_order@.skip(k as int).drop_first() =~= step_order@.skip(k + 1));
        k += 1;
    }
    Ok(())
}

/// The sort keys of funnel values: each value is a key of one number.
pub open spec fn value_keys(values: Seq<i128>) -> Seq<Seq<KeyPartView>> {
    Seq::new(values.len(), |i: int| seq![KeyPartView::Number(values[i] as int)])
}

/// The order in which the steps are drawn: the declared step order where
/// there is one, else the steps by falling value, steps of equal value in
/// their declared order.
pub open spec fn drawn_order(step_order: Option<Vec<usize>>, values: Seq<i128>) -> Seq<usize> {
    match step_order {
        Some(declared) => declared@,
        None => stable_order_of(value_keys(values), seq![true]),
    }
}

/// The order in which the steps of a funnel are drawn.
pub fn drawing_order(step_order: &Option<Vec<usize>>, values: &Vec<i128>) -> (r: Result<
    Vec<usize>,
    RenderError,
>)
    ensures
        match r {
            Err(e) => step_order is Some && step_order_error(
                step_order->0@,
                values@.len() as usize,
            ) == Some(e),
            Ok(order) => {
                &&& step_order is Some ==> step_order_error(
                    step_order->0@,
                    values@.len() as usize,
                ) is None
                &&& order@ == drawn_order(*step_order, values@)
                &&& order@.len() == values@.len()
                &&& forall|k: int| 0 <= k < order@.len() ==> #[trigger] order@[k] < values@.len()
            },
        },
{
    match step_order {
        Some(declared) => {
            match validate_step_order(declared, values.len()) {
                Err(e) => Err(e),
                Ok(_) => {
                    proof {
                        lemma_in_range(declared@, values@.len() as usize);
                    }
                    Ok(declared.clone())
                },
            }
        },
        None => {
            let mut keys: Vec<Vec<KeyPart>> = Vec::new();
            let mut i: usize = 0;
            while i < values.len()
                invariant
                    i <= values.len(),
                    keys@.len() == i,
                    forall|k: int|
                        0 <= k < i ==> (#[trigger] keys@[k])@.len() == 1 && keys@[k]@[0]@
                            == KeyPartView::Number(values@[k] as int),
                decreases values.len() - i,
            {
                let mut key: Vec<KeyPart> = Vec::new();
                key.push(KeyPart::Number(values[i]));
                keys.push(key);
                i += 1;
            }
            let mut descending: Vec<bool> = Vec::new();
            descending.push(true);
            assert(descending@ =~= seq![true]);
            assert(keys_view(keys@) =~= value_keys(values@)) by {
                assert forall|k: int| 0 <= k < keys@.len() implies keys_view(keys@)[k]
                    =~= value_keys(values@)[k] by {
                    assert(keys_view(keys@)[k].len() == 1);
                    assert(keys_view(keys@)[k][0] == keys@[k]@[0]@);
                }
            }
            Ok(sorted_order(&keys, &descending))
        },
    }
}

/// The width of the funnel on a surface of the given width: six tenths.
pub open spec fn funnel_width(width: u32) -> int {
    width * 6 / 10
}

/// The height of the funnel on a surface of the given height: six tenths.
pub open spec fn funnel_height(height: u32) -> int {
    height * 6 / 10
}

/// The left edge of the funnel: it is centred on the surface.
pub open spec fn funnel_left(width: u32) -> int {
    (width - funnel_width(width)) / 2
}

/// The top edge of the funnel: centred, and fifty pixels down for the title.
pub open spec fn funnel_top(height: u32) -> int {
    (height - funnel_height(height)) / 2 + 50
}

/// The height of one segment where the funnel has `count` of them.
pub open spec fn segment_height(height: u32, count: int) -> int {
    funnel_height(height) / count
}

/// The width of the segment for `value` where the largest value is `top`:
/// the funnel's width in the proportion of the value to the largest value,
/// and nothing for a value below zero.
pub open spec fn segment_width(width: u32, value: int, top: int) -> int {
    if value <= 0 {
        0
    } else {
        funnel_width(width) * value / top
    }
}

/// The label of a segment: the step, a colon, and the value rounded to a
/// whole number.
pub open spec fn segment_label(name: Seq<char>, value: int) -> Seq<char> {
    name + ": "@ + int_text(rounded_units(value))
}

/// Whether `segment` is the segment drawn at place `at` of `count` for the
/// step `name` with `value`: it is as wide as its value is to `top`, centred,
/// one segment height below the one before it, has colour `at` of the
/// palette's cycle, and its label stands 120 pixels left of it or 10 pixels
/// right of it, at half its height.
pub open spec fn is_segment(
    segment: &Segment,
    surface: Surface,
    count: int,
    at: int,
    name: Seq<char>,
    value: int,
    top: int,
    side: ValueLabelPosition,
    palette: Seq<Rgb>,
) -> bool {
    let high = segment_height(surface.height, count);
    let wide = segment_width(surface.width, value, top);
    &&& segment.name@ == name
    &&& segment.value == value
    &&& segment.left == funnel_left(surface.width) + (funnel_width(surface.width) - wide) / 2
    &&& segment.right == segment.left + wide
    &&& segment.top == funnel_top(surface.height) + at * high
    &&& segment.bottom == segment.top + high
    &&& segment.color == cycle_color(palette, at)
    &&& segment.label@ == segment_label(name, value)
    &&& segment.label_x == (match side {
        ValueLabelPosition::Left => segment.left - 120,
        ValueLabelPosition::Right => segment.right + 10,
    })
    &&& segment.label_y == segment.top + high / 2 + 5
}

/// The side on which the labels stand: the right unless declared otherwise.
pub open spec fn label_side(config: &ChartConfig) -> ValueLabelPosition {
    match config.value_labels {
        Some(side) => side,
        None => ValueLabelPosition::Right,
    }
}

/// The number of steps that have a value: the declared steps, as far as the
/// table has rows.
pub open spec fn step_count(table: FrameView, config: &ChartConfig) -> nat {
    if config.steps->0@.len() < table.height() {
        config.steps->0@.len()
    } else {
        table.height()
    }
}

/// The value of each step: step `i` has the quantity of row `i` of the value
/// column, or zero where that is not a number.
pub open spec fn step_values(table: FrameView, config: &ChartConfig) -> Seq<i128> {
    plotted_cells(table.column(config.values->0@), step_count(table, config))
}

/// Why a funnel cannot be laid out: the steps and the value binding are
/// needed, then the value column; a declared step order is held against the
/// number of steps that have a value, also where that number is zero.
pub open spec fn funnel_error(table: FrameView, config: &ChartConfig) -> Option<RenderError> {
    if config.steps is None {
        Some(RenderError::MissingField { chart_type: ChartType::Funnel, field: Binding::Steps })
    } else if resolved(table, config.values, ChartType::Funnel, Binding::Values) is Err {
        Some(resolved(table, config.values, ChartType::Funnel, Binding::Values)->Err_0)
    } else if config.step_order is Some {
        step_order_error(config.step_order->0@, step_count(table, config) as usize)
    } else {
        None
    }
}

/// Whether `plan` is the funnel of the table, drawn in `order`: white
/// background, the title fifty pixels left of the middle and twenty pixels
/// down, and at each place the segment of the step that `order` names.
pub open spec fn is_funnel_plan(
    plan: &FunnelPlan,
    table: FrameView,
    config: &ChartConfig,
    surface: Surface,
    title: Seq<char>,
    palette: Seq<Rgb>,
    order: Seq<usize>,
) -> bool {
    let values = step_values(table, config);
    &&& plan.title@ == title
    &&& plan.title_x == surface.width / 2 - 50
    &&& plan.title_y == 20
    &&& plan.background == Rgb { r: 255, g: 255, b: 255 }
    &&& plan.segments@.len() == order.len()
    &&& forall|at: int|
        0 <= at < order.len() ==> is_segment(
            #[trigger] &plan.segments@[at],
            surface,
            order.len() as int,
            at,
            config.steps->0@[order[at] as int]@,
            values[order[at] as int] as int,
            max_from(0, values),
            label_side(config),
            palette,
        )
}

fn build_segment(
    surface: &Surface,
    count: usize,
    at: usize,
    name: &String,
    value: i128,
    top: i128,
    side: ValueLabelPosition,
    style: &ChartStyle,
) -> (segment: Segment)
    requires
        0 <= at < count,
        0 < top <= MEASURE_LIMIT,
        -MEASURE_LIMIT <= value <= top,
    ensures
        is_segment(
            &segment,
            *surface,
            count as int,
            at as int,
            name@,
            value as int,
            top as int,
            side,
            style.colors.primary@,
        ),
{
    let full: i64 = (surface.width as i64) * 6 / 10;
    let tall: i64 = (surface.height as i64) * 6 / 10;
    let start_x: i64 = (surface.width as i64 - full) / 2;
    let start_y: i64 = (surface.height as i64 - tall) / 2 + 50;
    let high: i64 = if count as u128 > tall as u128 {
        0
    } else {
        tall / (count as i64)
    };
    assert(high == segment_height(surface.height, count as int)) by {
        if count as int > tall as int {
            vstd::arithmetic::div_mod::lemma_basic_div(tall as int, count as int);
        }
    }
    let wide: i64 = if value <= 0 {
        0
    } else {
        assert(0 <= (full as int) * (value as int) <= 4294967295 * 18_446_744_073_709_551_616_000)
            by (nonlinear_arith)
            requires
                0 <= full <= 4294967295,
                0 < value <= 18_446_744_073_709_551_616_000,
        ;
        let scaled: i128 = floor_div((full as i128) * value, top);
        assert(0 <= scaled <= full) by {
            assert((full as int) * (value as int) <= (full as int) * (top as int))
                by (nonlinear_arith)
                requires
                    0 <= full,
                    value <= top,
            ;
            assert((full as int) * (value as int) >= 0) by (nonlinear_arith)
                requires
                    0 <= full,
                    0 < value,
            ;
            let product: int = (full as int) * (value as int);
            let whole: int = (full as int) * (top as int);
            assert(whole == (top as int) * (full as int)) by (nonlinear_arith)
                requires
                    whole == (full as int) * (top as int),
            ;
            vstd::arithmetic::div_mod::lemma_div_is_ordered(product, whole, top as int);
            vstd::arithmetic::div_mod::lemma_div_multiples_vanish(full as int, top as int);
            vstd::arithmetic::div_mod::lemma_div_pos_is_pos(product, top as int);
            assert(scaled == product / (top as int));
            assert(whole / (top as int) == full);
        }
        scaled as i64
    };
    let left: i64 = start_x + (full - wide) / 2;
    let right: i64 = left + wide;
    assert(0 <= (at as int) * (high as int) <= tall) by {
        if high > 0 {
            vstd::arithmetic::div_mod::lemma_fundamental_div_mod(tall as int, count as int);
            assert((at as int) * (high as int) <= (count as int) * (high as int))
                by (nonlinear_arith)
                requires
                    at <= count,
                    high >= 0,
            ;
        }
        assert((at as int) * (high as int) >= 0) by (nonlinear_arith)
            requires
                at >= 0,
                high >= 0,
        ;
    }
    let y_top: i64 = start_y + ((at as i128) * (high as i128)) as i64;
    let y_bottom: i64 = y_top + high;
    let mut text: Vec<char> = chars_of(name.as_str());
    push_str(&mut text, ": ");
    push_int(&mut text, round_units(value));
    assert(text@ =~= segment_label(name@, value as int));
    let label_x: i64 = match side {
        ValueLabelPosition::Left => left - 120,
        ValueLabelPosition::Right => right + 10,
    };
    Segment {
        name: name.clone(),
        value,
        left,
        top: y_top,
        right,
        bottom: y_bottom,
        color: style.get_primary_color(at),
        label: string_of(&text),
        label_x,
        label_y: y_top + high / 2 + 5,
    }
}

/// What `render` owes for a table and a declaration: the failure, nothing to
/// draw, or the plan of the chart.
pub open spec fn renders(
    r: Result<Option<FunnelPlan>, RenderError>,
    table: FrameView,
    config: &ChartConfig,
    surface: Surface,
    title: Seq<char>,
    style: &ChartStyle,
) -> bool {
    match r {
        Err(e) => funnel_error(table, config) == Some(e),
        Ok(None) => funnel_error(table, config) is None && (step_count(table, config) == 0
            || max_from(0, step_values(table, config)) == 0),
        Ok(Some(plan)) => {
            &&& funnel_error(table, config) is None
            &&& step_count(table, config) > 0
            &&& max_from(0, step_values(table, config)) > 0
            &&& is_funnel_plan(
                &plan,
                table,
                config,
                surface,
                title,
                style.colors.primary@,
                drawn_order(config.step_order, step_values(table, config)),
            )
        },
    }
}

/// The first position of a step order that is no step is one of its
/// positions, and it is not below the number of steps.
pub proof fn lemma_first_out_of_range(order: Seq<usize>, steps: usize)
    requires
        first_out_of_range(order, steps) is Some,
    ensures
        first_out_of_range(order, steps)->0 >= steps,
        order.contains(first_out_of_range(order, steps)->0),
    decreases order.len(),
{
    if order[0] >= steps {
        assert(order[0] == first_out_of_range(order, steps)->0);
    } else {
        let rest = order.drop_first();
        lemma_first_out_of_range(rest, steps);
        let found = first_out_of_range(rest, steps)->0;
        let at = choose|at: int| 0 <= at < rest.len() && rest[at] == found;
        assert(order[at + 1] == found);
    }
}

/// A funnel that has its steps and its value column fails on a declared
/// step order that does not fit the steps with a value: on an order of
/// another length with the two lengths; else on an order with a position
/// that is no step with such a position. There may be no step with a value:
/// then every order but the one without positions fails.
pub proof fn law_unfit_step_order_fails(
    r: Result<Option<FunnelPlan>, RenderError>,
    table: FrameView,
    config: &ChartConfig,
    surface: Surface,
    title: Seq<char>,
    style: &ChartStyle,
)
    requires
        renders(r, table, config, surface, title, style),
        config.steps is Some,
        resolved(table, config.values, ChartType::Funnel, Binding::Values) is Ok,
        config.step_order is Some,
    ensures
        config.step_order->0@.len() != step_count(table, config) as usize ==> r == Err::<
            Option<FunnelPlan>,
            RenderError,
        >(
            RenderError::StepOrderLength {
                given: config.step_order->0@.len() as usize,
                steps: step_count(table, config) as usize,
            },
        ),
        (config.step_order->0@.len() == step_count(table, config) as usize && exists|k: int|
            0 <= k < config.step_order->0@.len() && #[trigger] config.step_order->0@[k]
                >= step_count(table, config) as usize) ==> (r matches Err(
            RenderError::StepOrderIndex { index, steps },
        ) && steps == step_count(table, config) as usize && index >= steps
            && config.step_order->0@.contains(index)),
        (step_count(table, config) == 0 && config.step_order->0@.len() > 0) ==> r is Err,
{
    let order = config.step_order->0@;
    let steps = step_count(table, config) as usize;
    if order.len() == steps {
        if first_out_of_range(order, steps) is None {
            lemma_in_range(order, steps);
        } else {
            lemma_first_out_of_range(order, steps);
        }
    }
}

/// Lays out a funnel. Step `i` takes the quantity of row `i` of the value
/// column; steps past the last row are left out. The steps are drawn in the
/// declared step order, which must list as many positions as there are
/// steps with a value, each below that number; an order that does not is
/// refused, also where no step has a value. Without a declared order the
/// steps are drawn by falling value. Each segment is as wide as its value is
/// to the largest value, centred, and all segments are of one height. A
/// funnel without a step, or whose largest value is not above zero, gives
/// nothing to draw.
pub fn render(
    frame: &Frame,
    config: &ChartConfig,
    surface: &Surface,
    title: &str,
    legend_position: &LegendPosition,
    style: &ChartStyle,
) -> (r: Result<Option<FunnelPlan>, RenderError>)
    ensures
        renders(r, frame@, config, *surface, title@, style),
{
    let steps: &Vec<String> = match &config.steps {
        Some(steps) => steps,
        None => {
            return Err(
                RenderError::MissingField { chart_type: ChartType::Funnel, field: Binding::Steps },
            );
        },
    };
    let column: usize = match resolve(frame, &config.values, ChartType::Funnel, Binding::Values) {
        Ok(c) => c,
        Err(e) => {
            return Err(e);
        },
    };
    let height: usize = frame.height();
    let count: usize = if steps.len() < height {
        steps.len()
    } else {
        height
    };
    let values: Vec<i128> = read_plotted(frame, column, count);
    let order: Vec<usize> = match drawing_order(&config.step_order, &values) {
        Ok(order) => order,
        Err(e) => {
            return Err(e);
        },
    };
    if count == 0 {
        return Ok(None);
    }
    let top: i128 = max_of(0, &values);
    proof {
        lemma_max_from(0, values@);
    }
    if top == 0 {
        return Ok(None);
    }
    let side: ValueLabelPosition = match config.value_labels {
        Some(side) => side,
        None => ValueLabelPosition::Right,
    };
    let mut segments: Vec<Segment> = Vec::new();
    let mut at: usize = 0;
    while at < order.len()
        invariant
            at <= order@.len(),
            order@.len() == values@.len(),
            values@.len() == count,
            count <= steps@.len(),
            config.steps == Some(*steps),
            values@ == step_values(frame@, config),
            within_limit(values@),
            0 < top <= MEASURE_LIMIT,
            top == max_from(0, values@),
            forall|i: int| 0 <= i < values@.len() ==> top >= #[trigger] values@[i],
            side == label_side(config),
            forall|k: int| 0 <= k < order@.len() ==> #[trigger] order@[k] < values@.len(),
            segments@.len() == at,
            forall|k: int|
                0 <= k < at ==> is_segment(
                    #[trigger] &segments@[k],
                    *surface,
                    order@.len() as int,
                    k,
                    steps@[order@[k] as int]@,
                    values@[order@[k] as int] as int,
                    top as int,
                    side,
                    style.colors.primary@,
                ),
        decreases order@.len() - at,
    {
        let step: usize = order[at];
        let segment: Segment = build_segment(
            surface,
            order.len(),
            at,
            &steps[step],
            values[step],
            top,
            side,
            style,
        );
        segments.push(segment);
        at += 1;
    }
    let plan: FunnelPlan = FunnelPlan {
        title: String::from_str(title),
        title_x: (surface.width as i64) / 2 - 50,
        title_y: 20,
        background: Rgb { r: 255, g: 255, b: 255 },
        segments,
    };
    assert(is_funnel_plan(
        &plan,
        frame@,
        config,
        *surface,
        title@,
        style.colors.primary@,
        order@,
    ));
    Ok(Some(plan))
}

} // verus!
