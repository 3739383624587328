use graff::chart::area::Trapezoid;
use graff::chart::bar::Bar;
use graff::chart::bar_stacked::{stack_intervals, Interval};
use graff::chart::funnel::validate_step_order;
use graff::chart::heatmap::HeatmapOutcome;
use graff::chart;
use graff::chart::{Binding, Point, RenderError, Surface};
use graff::chart_spec::{ChartConfig, ChartType, LegendPosition, ValueLabelPosition};
use graff::frame::{extract_numeric_value, Cell, Column, Frame};
use graff::styling::{get_chart_style, Rgb};

fn text(s: &str) -> Cell {
    Cell::Text(s.to_string())
}

fn column(name: &str, cells: Vec<Cell>) -> Column {
    Column { name: name.to_string(), cells }
}

fn ints(name: &str, values: &[i64]) -> Column {
    column(name, values.iter().map(|v| Cell::Int(*v)).collect())
}

fn texts(name: &str, values: &[&str]) -> Column {
    column(name, values.iter().map(|v| text(v)).collect())
}

fn surface() -> Surface {
    Surface { width: 1000, height: 800 }
}

// The table of "date,users,channel\n2023-01-01,100,organic\n2023-01-02,150,direct".
fn two_days() -> Frame {
    Frame::new(vec![
        texts("date", &["2023-01-01", "2023-01-02"]),
        ints("users", &[100, 150]),
        texts("channel", &["organic", "direct"]),
    ])
    .unwrap()
}

fn axes(chart_type: ChartType, x: &str, y: &str) -> ChartConfig {
    ChartConfig {
        chart_type,
        x: Some(x.to_string()),
        y: Some(y.to_string()),
        ..Default::default()
    }
}

#[test]
fn numeric_cells_give_their_quantity_in_thousandths() {
    assert_eq!(extract_numeric_value(&Cell::Int(-7)), Some(-7000));
    assert_eq!(extract_numeric_value(&Cell::UInt(u64::MAX)), Some(18_446_744_073_709_551_615_000));
    assert_eq!(extract_numeric_value(&Cell::Real(1250)), Some(1250));
    assert_eq!(extract_numeric_value(&Cell::Null), None);
    assert_eq!(extract_numeric_value(&text("12")), None);
    assert_eq!(extract_numeric_value(&Cell::Boolean(true)), None);
    assert_eq!(extract_numeric_value(&Cell::Date(3)), None);
    assert_eq!(extract_numeric_value(&Cell::Datetime(3)), None);
}

#[test]
fn cells_are_labelled_by_their_text() {
    assert_eq!(Cell::Null.label(), "null");
    assert_eq!(Cell::Boolean(false).label(), "false");
    assert_eq!(Cell::Int(-42).label(), "-42");
    assert_eq!(Cell::Int(i64::MIN).label(), "-9223372036854775808");
    assert_eq!(Cell::UInt(0).label(), "0");
    assert_eq!(Cell::Real(1500).label(), "1.5");
    assert_eq!(Cell::Real(-50).label(), "-0.05");
    assert_eq!(Cell::Real(2000).label(), "2");
    assert_eq!(Cell::Real(1234).label(), "1.234");
    assert_eq!(text("organic").label(), "organic");
    assert_eq!(Cell::Date(19358).label(), "19358");
}

#[test]
fn line_chart_of_two_days() {
    let style = get_chart_style();
    let config = axes(ChartType::Line, "date", "users");
    let plan =
        chart::line::render(&two_days(), &config, &surface(), "Users", &LegendPosition::Right, &style)
            .unwrap()
            .unwrap();
    assert_eq!(plan.title, "Users");
    assert_eq!(plan.x_label, "date");
    assert_eq!(plan.y_label, "users");
    assert_eq!(plan.points, vec![Point { x: 0, y: 100_000 }, Point { x: 1000, y: 150_000 }]);
    assert_eq!(plan.x_upper, 2000);
    assert_eq!(plan.y_upper, 165_000);
    assert_eq!(plan.color, Rgb { r: 31, g: 119, b: 180 });
    assert_eq!(plan.point_size, 4);
}

#[test]
fn a_chart_counts_a_cell_that_is_no_number_as_zero() {
    let style = get_chart_style();
    let frame = Frame::new(vec![
        texts("x", &["a", "b", "c"]),
        column("y", vec![Cell::Int(3), text("n/a"), Cell::Null]),
    ])
    .unwrap();
    let config = axes(ChartType::Line, "x", "y");
    let plan = chart::line::render(&frame, &config, &surface(), "t", &LegendPosition::Right, &style)
        .unwrap()
        .unwrap();
    assert_eq!(
        plan.points,
        vec![Point { x: 0, y: 3000 }, Point { x: 1000, y: 0 }, Point { x: 2000, y: 0 }]
    );
}

#[test]
fn a_grouped_line_chart_names_its_axis_by_the_group() {
    let style = get_chart_style();
    let config = ChartConfig {
        group_by: Some("channel".to_string()),
        ..axes(ChartType::Line, "date", "users")
    };
    let plan = chart::line::render(&two_days(), &config, &surface(), "t", &LegendPosition::Right, &style)
        .unwrap()
        .unwrap();
    assert_eq!(plan.x_label, "channel");
    assert_eq!(plan.points.len(), 2);
}

#[test]
fn charts_report_the_first_column_that_is_missing() {
    let style = get_chart_style();
    let frame = two_days();
    let side = LegendPosition::Right;
    let config = axes(ChartType::Line, "day", "count");
    assert_eq!(
        chart::line::render(&frame, &config, &surface(), "t", &side, &style).unwrap_err(),
        RenderError::ColumnNotFound { column: Binding::X }
    );
    let config = axes(ChartType::Bar, "date", "count");
    let error = chart::bar::render(&frame, &config, &surface(), "t", &side, &style).unwrap_err();
    assert_eq!(error, RenderError::ColumnNotFound { column: Binding::Y });
    assert_eq!(error.message(), "Y column not found");
    let config = ChartConfig { y: None, ..axes(ChartType::Area, "date", "users") };
    let error = chart::area::render(&frame, &config, &surface(), "t", &side, &style).unwrap_err();
    assert_eq!(error, RenderError::MissingField { chart_type: ChartType::Area, field: Binding::Y });
    assert_eq!(error.message(), "Area charts require a 'y' field");
    let config = ChartConfig {
        group_by: Some("team".to_string()),
        ..axes(ChartType::Bar, "date", "users")
    };
    let error = chart::bar::render(&frame, &config, &surface(), "t", &side, &style).unwrap_err();
    assert_eq!(error.message(), "Group column not found");
}

#[test]
fn an_empty_table_gives_nothing_to_draw() {
    let style = get_chart_style();
    let frame = Frame::new(vec![texts("x", &[]), ints("y", &[])]).unwrap();
    let side = LegendPosition::Right;
    let s = surface();
    assert!(chart::line::render(&frame, &axes(ChartType::Line, "x", "y"), &s, "t", &side, &style)
        .unwrap()
        .is_none());
    assert!(chart::area::render(&frame, &axes(ChartType::Area, "x", "y"), &s, "t", &side, &style)
        .unwrap()
        .is_none());
    assert!(chart::bar::render(&frame, &axes(ChartType::Bar, "x", "y"), &s, "t", &side, &style)
        .unwrap()
        .is_none());
    assert!(chart::scatter::render(&frame, &axes(ChartType::Scatter, "x", "y"), &s, "t", &side, &style)
        .unwrap()
        .is_none());
}

#[test]
fn area_chart_fills_a_trapezoid_under_each_pair_of_neighbours() {
    let style = get_chart_style();
    let frame = Frame::new(vec![texts("x", &["a", "b", "c"]), ints("y", &[1, 3, 2])]).unwrap();
    let config = axes(ChartType::Area, "x", "y");
    let plan = chart::area::render(&frame, &config, &surface(), "t", &LegendPosition::Right, &style)
        .unwrap()
        .unwrap();
    let p = [Point { x: 0, y: 1000 }, Point { x: 1000, y: 3000 }, Point { x: 2000, y: 2000 }];
    assert_eq!(plan.points, p.to_vec());
    assert_eq!(
        plan.fills,
        vec![Trapezoid { left: p[0], right: p[1] }, Trapezoid { left: p[1], right: p[2] }]
    );
    assert_eq!(plan.x_upper, 3000);
    assert_eq!(plan.y_upper, 3300);
    assert_eq!(plan.fill_opacity, 30);
}

#[test]
fn area_chart_reads_a_hundred_rows_at_most() {
    let style = get_chart_style();
    let values: Vec<i64> = (0..150).collect();
    let labels: Vec<Cell> = (0..150).map(Cell::Int).collect();
    let frame = Frame::new(vec![column("x", labels), ints("y", &values)]).unwrap();
    let config = axes(ChartType::Area, "x", "y");
    let plan = chart::area::render(&frame, &config, &surface(), "t", &LegendPosition::Right, &style)
        .unwrap()
        .unwrap();
    assert_eq!(plan.points.len(), 100);
    assert_eq!(plan.fills.len(), 99);
    assert_eq!(plan.y_upper, 99_000 * 11 / 10);
    // A line chart reads them all.
    let config = axes(ChartType::Line, "x", "y");
    let plan = chart::line::render(&frame, &config, &surface(), "t", &LegendPosition::Right, &style)
        .unwrap()
        .unwrap();
    assert_eq!(plan.points.len(), 150);
}

#[test]
fn bar_chart_shows_twenty_bars_at_most_in_cycling_colours() {
    let style = get_chart_style();
    let values: Vec<i64> = (1..=25).collect();
    let labels: Vec<Cell> = (1..=25).map(Cell::Int).collect();
    let frame = Frame::new(vec![column("x", labels), ints("y", &values)]).unwrap();
    let config = axes(ChartType::Bar, "x", "y");
    let plan = chart::bar::render(&frame, &config, &surface(), "Bars", &LegendPosition::Right, &style)
        .unwrap()
        .unwrap();
    assert_eq!(plan.bars.len(), 20);
    assert_eq!(plan.bars[0], Bar { index: 0, height: 1000, color: Rgb { r: 31, g: 119, b: 180 } });
    assert_eq!(plan.bars[9].color, Rgb { r: 23, g: 190, b: 207 });
    assert_eq!(plan.bars[10].color, Rgb { r: 31, g: 119, b: 180 });
    assert_eq!(plan.bars[19].height, 20_000);
    assert_eq!(plan.y_upper, 22_000);
}

#[test]
fn the_axis_of_bars_below_zero_ends_at_zero() {
    let style = get_chart_style();
    let frame = Frame::new(vec![texts("x", &["a", "b"]), ints("y", &[-5, -2])]).unwrap();
    let config = axes(ChartType::Bar, "x", "y");
    let plan = chart::bar::render(&frame, &config, &surface(), "t", &LegendPosition::Right, &style)
        .unwrap()
        .unwrap();
    assert_eq!(plan.y_upper, 0);
}

#[test]
fn stacking_accumulates_and_ends_at_the_sum() {
    let values = vec![3000, -1000, 0, 2500];
    let stack = stack_intervals(&values);
    assert_eq!(
        stack,
        vec![
            Interval { start: 0, end: 3000 },
            Interval { start: 3000, end: 2000 },
            Interval { start: 2000, end: 2000 },
            Interval { start: 2000, end: 4500 },
        ]
    );
    assert_eq!(stack.last().unwrap().end, values.iter().sum::<i128>());
    assert_eq!(stack_intervals(&vec![]), vec![]);
}

#[test]
fn stacking_takes_any_number_of_values_whose_sums_fit() {
    let values: Vec<i128> = vec![1500; 5000];
    let stack = stack_intervals(&values);
    assert_eq!(stack.len(), 5000);
    assert_eq!(stack[0], Interval { start: 0, end: 1500 });
    assert_eq!(stack[4096], Interval { start: 6_144_000, end: 6_145_500 });
    assert_eq!(stack[4999], Interval { start: 7_498_500, end: 7_500_000 });

    // Values far beyond what a cell holds stack as long as their sums fit.
    let wide = vec![i128::MAX, -i128::MAX, i128::MIN + 1, 1];
    assert_eq!(
        stack_intervals(&wide),
        vec![
            Interval { start: 0, end: i128::MAX },
            Interval { start: i128::MAX, end: 0 },
            Interval { start: 0, end: i128::MIN + 1 },
            Interval { start: i128::MIN + 1, end: i128::MIN + 2 },
        ]
    );
}

fn stacked_config() -> ChartConfig {
    ChartConfig {
        group_by: Some("channel".to_string()),
        ..axes(ChartType::BarStacked, "month", "users")
    }
}

#[test]
fn stacked_bars_stack_the_groups_in_lexicographic_order() {
    let style = get_chart_style();
    let frame = Frame::new(vec![
        texts("month", &["feb", "jan", "feb", "jan", "feb"]),
        texts("channel", &["organic", "organic", "direct", "email", "organic"]),
        ints("users", &[10, 20, 30, 40, 50]),
    ])
    .unwrap();
    let plan = chart::bar_stacked::render(
        &frame,
        &stacked_config(),
        &surface(),
        "Stacked",
        &LegendPosition::Right,
        &style,
    )
    .unwrap()
    .unwrap();
    // Categories in the order of the rows, groups in the order of their names.
    assert_eq!(plan.categories, vec!["feb", "jan"]);
    assert_eq!(plan.groups, vec!["direct", "email", "organic"]);
    // The later organic row of february replaces the earlier one.
    assert_eq!(
        plan.stacks[0],
        vec![
            Interval { start: 0, end: 30_000 },
            Interval { start: 30_000, end: 30_000 },
            Interval { start: 30_000, end: 80_000 },
        ]
    );
    assert_eq!(
        plan.stacks[1],
        vec![
            Interval { start: 0, end: 0 },
            Interval { start: 0, end: 40_000 },
            Interval { start: 40_000, end: 60_000 },
        ]
    );
    // The top of each bar is the sum of the values of its groups.
    assert_eq!(plan.stacks[0].last().unwrap().end, 30_000 + 0 + 50_000);
    assert_eq!(plan.stacks[1].last().unwrap().end, 0 + 40_000 + 20_000);
    assert_eq!(plan.max_height, 80_000);
    assert_eq!(plan.y_upper, 88_000);
    assert_eq!(
        plan.colors,
        vec![
            Rgb { r: 31, g: 119, b: 180 },
            Rgb { r: 255, g: 127, b: 14 },
            Rgb { r: 44, g: 160, b: 44 }
        ]
    );
    assert_eq!(plan.x_label, "month");
    assert_eq!(plan.y_label, "users");
}

#[test]
fn stacked_bars_without_the_x_column_make_one_bar() {
    let style = get_chart_style();
    let frame = Frame::new(vec![
        texts("channel", &["organic", "direct", "organic"]),
        ints("users", &[10, 30, 50]),
    ])
    .unwrap();
    let plan = chart::bar_stacked::render(
        &frame,
        &stacked_config(),
        &surface(),
        "t",
        &LegendPosition::Right,
        &style,
    )
    .unwrap()
    .unwrap();
    assert!(plan.categories.is_empty());
    assert_eq!(plan.groups, vec!["direct", "organic"]);
    assert_eq!(
        plan.stacks,
        vec![vec![Interval { start: 0, end: 30_000 }, Interval { start: 30_000, end: 80_000 }]]
    );
    assert_eq!(plan.x_label, "channel");
    assert_eq!(plan.max_height, 80_000);
}

#[test]
fn stacked_bars_need_a_group_column() {
    let style = get_chart_style();
    let config = axes(ChartType::BarStacked, "date", "users");
    let error =
        chart::bar_stacked::render(&two_days(), &config, &surface(), "t", &LegendPosition::Right, &style)
            .unwrap_err();
    assert_eq!(
        error,
        RenderError::MissingField { chart_type: ChartType::BarStacked, field: Binding::GroupBy }
    );
    assert_eq!(error.message(), "Stacked bar charts require a 'group_by' field");
}

#[test]
fn stacked_bars_of_height_zero_give_nothing_to_draw() {
    let style = get_chart_style();
    let frame = Frame::new(vec![
        texts("month", &["jan", "feb"]),
        texts("channel", &["a", "b"]),
        ints("users", &[0, 0]),
    ])
    .unwrap();
    let drawn = chart::bar_stacked::render(
        &frame,
        &stacked_config(),
        &surface(),
        "t",
        &LegendPosition::Right,
        &style,
    )
    .unwrap();
    assert!(drawn.is_none());
}

#[test]
fn stacked_bars_read_fifty_rows_at_most() {
    let style = get_chart_style();
    let months: Vec<Cell> = (0..60).map(|i| text(&format!("m{:02}", i))).collect();
    let channels: Vec<Cell> = (0..60).map(|_| text("all")).collect();
    let users: Vec<i64> = (0..60).map(|i| i + 1).collect();
    let frame =
        Frame::new(vec![column("month", months), column("channel", channels), ints("users", &users)])
            .unwrap();
    let plan = chart::bar_stacked::render(
        &frame,
        &stacked_config(),
        &surface(),
        "t",
        &LegendPosition::Right,
        &style,
    )
    .unwrap()
    .unwrap();
    assert_eq!(plan.categories.len(), 50);
    assert_eq!(plan.max_height, 50_000);
}

#[test]
fn heatmap_without_z_falls_back_to_bars() {
    let style = get_chart_style();
    let config = axes(ChartType::Heatmap, "date", "users");
    let outcome =
        chart::heatmap::render(&two_days(), &config, &surface(), "Heat", &LegendPosition::Right, &style)
            .unwrap()
            .unwrap();
    match outcome {
        HeatmapOutcome::Bars(plan) => {
            assert_eq!(plan.bars.len(), 2);
            assert_eq!(plan.bars[0].height, 100_000);
            assert_eq!(plan.bars[1].height, 150_000);
            assert_eq!(plan.y_upper, 165_000);
            assert_eq!(plan.title, "Heat");
        }
        HeatmapOutcome::Cells(_) => panic!("a heatmap without z draws bars"),
    }
}

fn heat(z: Vec<Cell>) -> Vec<graff::chart::heatmap::HeatCell> {
    let style = get_chart_style();
    let n = z.len();
    let frame = Frame::new(vec![
        column("x", (0..n as i64).map(Cell::Int).collect()),
        column("y", (0..n as i64).map(Cell::Int).collect()),
        column("z", z),
    ])
    .unwrap();
    let config = ChartConfig { z: Some("z".to_string()), ..axes(ChartType::Heatmap, "x", "y") };
    match chart::heatmap::render(&frame, &config, &surface(), "t", &LegendPosition::Right, &style)
        .unwrap()
    {
        Some(HeatmapOutcome::Cells(plan)) => plan.cells,
        Some(HeatmapOutcome::Bars(_)) => panic!("a heatmap with z draws cells"),
        None => vec![],
    }
}

#[test]
fn heatmap_shades_each_cell_by_its_place_between_the_extremes() {
    let cells = heat(vec![Cell::Int(10), Cell::Int(20), Cell::Int(30)]);
    assert_eq!(cells.len(), 3);
    assert_eq!(cells[0].color, Rgb { r: 60, g: 66, b: 72 });
    assert_eq!(cells[1].color, Rgb { r: 120, g: 132, b: 144 });
    assert_eq!(cells[2].color, Rgb { r: 180, g: 198, b: 216 });
    assert_eq!((cells[0].index, cells[1].index, cells[2].index), (0, 1, 2));
    assert_eq!(cells[1].value, 20_000);
}

#[test]
fn heatmap_of_one_value_has_half_intensity() {
    // Both ends of the scale are 5: the largest value, and the smallest.
    let cells = heat(vec![Cell::Int(5), Cell::Int(5)]);
    assert_eq!(cells[0].color, Rgb { r: 120, g: 132, b: 144 });
    assert_eq!(cells[1].color, Rgb { r: 120, g: 132, b: 144 });
    let cells = heat(vec![Cell::Int(-7)]);
    assert_eq!(cells[0].color, Rgb { r: 120, g: 132, b: 144 });
}

#[test]
fn heatmap_scale_runs_from_the_smallest_value_to_the_largest() {
    // Values below zero: the smallest has no intensity, the largest has full.
    let cells = heat(vec![Cell::Int(-2), Cell::Int(-1)]);
    assert_eq!(cells[0].color, Rgb { r: 60, g: 66, b: 72 });
    assert_eq!(cells[1].color, Rgb { r: 180, g: 198, b: 216 });
    let cells = heat(vec![Cell::Int(-4), Cell::Int(-2), Cell::Int(-3)]);
    assert_eq!(cells[0].color, Rgb { r: 60, g: 66, b: 72 });
    assert_eq!(cells[1].color, Rgb { r: 180, g: 198, b: 216 });
    assert_eq!(cells[2].color, Rgb { r: 120, g: 132, b: 144 });
    // Values above zero: zero is no end of the scale.
    let cells = heat(vec![Cell::Int(30), Cell::Int(10)]);
    assert_eq!(cells[0].color, Rgb { r: 180, g: 198, b: 216 });
    assert_eq!(cells[1].color, Rgb { r: 60, g: 66, b: 72 });
}

#[test]
fn heatmap_reads_a_z_that_is_no_number_as_zero() {
    let cells = heat(vec![text("x"), Cell::Int(5)]);
    assert_eq!(cells.len(), 2);
    assert_eq!((cells[0].index, cells[0].value), (0, 0));
    assert_eq!((cells[1].index, cells[1].value), (1, 5000));
    assert_eq!(cells[0].color, Rgb { r: 60, g: 66, b: 72 });
    assert_eq!(cells[1].color, Rgb { r: 180, g: 198, b: 216 });

    let cells = heat(vec![Cell::Int(1), text("x"), Cell::Null, Cell::Int(3)]);
    assert_eq!(cells.len(), 4);
    let values: Vec<i128> = cells.iter().map(|c| c.value).collect();
    assert_eq!(values, vec![1000, 0, 0, 3000]);
    let places: Vec<usize> = cells.iter().map(|c| c.index).collect();
    assert_eq!(places, vec![0, 1, 2, 3]);
    // A third of the way up: 60 + 0.333 * 120 = 99.96.
    assert_eq!(cells[0].color, Rgb { r: 99, g: 109, b: 119 });
    assert_eq!(cells[1].color, Rgb { r: 60, g: 66, b: 72 });
    assert_eq!(cells[3].color, Rgb { r: 180, g: 198, b: 216 });

    // Rows without any number are drawn too, all of one value.
    let cells = heat(vec![text("x"), Cell::Null]);
    assert_eq!(cells.len(), 2);
    assert_eq!(cells[0].color, Rgb { r: 120, g: 132, b: 144 });
    assert!(heat(vec![]).is_empty());
}

#[test]
fn heatmap_reads_a_hundred_rows_at_most() {
    let cells = heat((0..130).map(Cell::Int).collect());
    assert_eq!(cells.len(), 100);
}

#[test]
fn scatter_plot_pads_its_axes_by_a_tenth_of_their_extent() {
    let style = get_chart_style();
    let frame = Frame::new(vec![ints("x", &[1, 2, 3]), ints("y", &[10, 20, 40])]).unwrap();
    let config = axes(ChartType::Scatter, "x", "y");
    let plan = chart::scatter::render(&frame, &config, &surface(), "t", &LegendPosition::Right, &style)
        .unwrap()
        .unwrap();
    assert_eq!(
        plan.points,
        vec![
            Point { x: 1000, y: 10_000 },
            Point { x: 2000, y: 20_000 },
            Point { x: 3000, y: 40_000 }
        ]
    );
    assert_eq!((plan.x_lower, plan.x_upper), (800, 3200));
    assert_eq!((plan.y_lower, plan.y_upper), (7000, 43_000));
}

#[test]
fn scatter_plot_puts_a_row_without_a_number_at_its_row() {
    let style = get_chart_style();
    let frame =
        Frame::new(vec![texts("x", &["a", "b", "c"]), column("y", vec![Cell::Int(1), Cell::Null, Cell::Int(-1)])])
            .unwrap();
    let config = axes(ChartType::Scatter, "x", "y");
    let plan = chart::scatter::render(&frame, &config, &surface(), "t", &LegendPosition::Right, &style)
        .unwrap()
        .unwrap();
    assert_eq!(
        plan.points,
        vec![Point { x: 0, y: 1000 }, Point { x: 1000, y: 0 }, Point { x: 2000, y: -1000 }]
    );
    assert_eq!((plan.x_lower, plan.x_upper), (-200, 2200));
    assert_eq!((plan.y_lower, plan.y_upper), (-1200, 1200));
}

#[test]
fn scatter_plot_reads_a_thousand_rows_at_most() {
    let style = get_chart_style();
    let values: Vec<i64> = (0..1100).collect();
    let frame = Frame::new(vec![ints("x", &values), ints("y", &values)]).unwrap();
    let config = axes(ChartType::Scatter, "x", "y");
    let plan = chart::scatter::render(&frame, &config, &surface(), "t", &LegendPosition::Right, &style)
        .unwrap()
        .unwrap();
    assert_eq!(plan.points.len(), 1000);
}

fn funnel_config(steps: &[&str]) -> ChartConfig {
    ChartConfig {
        chart_type: ChartType::Funnel,
        steps: Some(steps.iter().map(|s| s.to_string()).collect()),
        values: Some("count".to_string()),
        ..Default::default()
    }
}

#[test]
fn funnel_segments_are_as_wide_as_their_value_is_to_the_largest() {
    let style = get_chart_style();
    let frame = Frame::new(vec![ints("count", &[50, 100, 25])]).unwrap();
    let config = funnel_config(&["Cart", "Visit", "Pay"]);
    let plan = chart::funnel::render(&frame, &config, &surface(), "Funnel", &LegendPosition::Right, &style)
        .unwrap()
        .unwrap();
    assert_eq!((plan.title_x, plan.title_y), (450, 20));
    assert_eq!(plan.background, Rgb { r: 255, g: 255, b: 255 });
    // Without a step order the steps are drawn by falling value.
    let names: Vec<&str> = plan.segments.iter().map(|s| s.name.as_str()).collect();
    assert_eq!(names, vec!["Visit", "Cart", "Pay"]);
    let s = &plan.segments[0];
    assert_eq!((s.left, s.top, s.right, s.bottom), (200, 210, 800, 370));
    assert_eq!(s.label, "Visit: 100");
    assert_eq!((s.label_x, s.label_y), (810, 295));
    assert_eq!(s.color, Rgb { r: 31, g: 119, b: 180 });
    let s = &plan.segments[1];
    assert_eq!((s.left, s.top, s.right, s.bottom), (350, 370, 650, 530));
    assert_eq!(s.color, Rgb { r: 255, g: 127, b: 14 });
    let s = &plan.segments[2];
    assert_eq!((s.left, s.top, s.right, s.bottom), (425, 530, 575, 690));
    assert_eq!(s.label, "Pay: 25");
}

#[test]
fn funnel_labels_stand_left_when_asked() {
    let style = get_chart_style();
    let frame = Frame::new(vec![ints("count", &[100, 50])]).unwrap();
    let config =
        ChartConfig { value_labels: Some(ValueLabelPosition::Left), ..funnel_config(&["a", "b"]) };
    let plan = chart::funnel::render(&frame, &config, &surface(), "t", &LegendPosition::Right, &style)
        .unwrap()
        .unwrap();
    assert_eq!(plan.segments[0].label_x, 200 - 120);
    assert_eq!(plan.segments[1].label_x, 350 - 120);
}

#[test]
fn funnel_labels_round_the_value_to_a_whole_number() {
    let style = get_chart_style();
    let frame = Frame::new(vec![column(
        "count",
        vec![Cell::Real(2500), Cell::Real(1500), Cell::Real(1499), Cell::Real(501)],
    )])
    .unwrap();
    let config = funnel_config(&["a", "b", "c", "d"]);
    let plan = chart::funnel::render(&frame, &config, &surface(), "t", &LegendPosition::Right, &style)
        .unwrap()
        .unwrap();
    let labels: Vec<&str> = plan.segments.iter().map(|s| s.label.as_str()).collect();
    // A tie goes to the even neighbour.
    assert_eq!(labels, vec!["a: 2", "b: 2", "c: 1", "d: 1"]);
}

#[test]
fn funnel_follows_a_declared_step_order() {
    let style = get_chart_style();
    let frame = Frame::new(vec![ints("count", &[50, 100, 25])]).unwrap();
    let config =
        ChartConfig { step_order: Some(vec![2, 0, 1]), ..funnel_config(&["Cart", "Visit", "Pay"]) };
    let plan = chart::funnel::render(&frame, &config, &surface(), "t", &LegendPosition::Right, &style)
        .unwrap()
        .unwrap();
    let names: Vec<&str> = plan.segments.iter().map(|s| s.name.as_str()).collect();
    assert_eq!(names, vec!["Pay", "Cart", "Visit"]);
    let values: Vec<i128> = plan.segments.iter().map(|s| s.value).collect();
    assert_eq!(values, vec![25_000, 50_000, 100_000]);
}

#[test]
fn funnel_keeps_steps_of_equal_value_in_their_declared_order() {
    let style = get_chart_style();
    let frame = Frame::new(vec![ints("count", &[5, 9, 5, 9])]).unwrap();
    let config = funnel_config(&["a", "b", "c", "d"]);
    let plan = chart::funnel::render(&frame, &config, &surface(), "t", &LegendPosition::Right, &style)
        .unwrap()
        .unwrap();
    let names: Vec<&str> = plan.segments.iter().map(|s| s.name.as_str()).collect();
    assert_eq!(names, vec!["b", "d", "a", "c"]);
}

#[test]
fn funnel_refuses_a_step_order_that_does_not_fit() {
    let style = get_chart_style();
    let frame = Frame::new(vec![ints("count", &[50, 100, 25])]).unwrap();
    let steps = ["Cart", "Visit", "Pay"];
    let config = ChartConfig { step_order: Some(vec![0, 1]), ..funnel_config(&steps) };
    let error = chart::funnel::render(&frame, &config, &surface(), "t", &LegendPosition::Right, &style)
        .unwrap_err();
    assert_eq!(error, RenderError::StepOrderLength { given: 2, steps: 3 });
    assert_eq!(error.message(), "Step order length (2) must match number of steps (3)");

    let config = ChartConfig { step_order: Some(vec![0, 3, 7]), ..funnel_config(&steps) };
    let error = chart::funnel::render(&frame, &config, &surface(), "t", &LegendPosition::Right, &style)
        .unwrap_err();
    assert_eq!(error, RenderError::StepOrderIndex { index: 3, steps: 3 });
    assert_eq!(error.message(), "Invalid step order index: 3 (max: 2)");
}

#[test]
fn funnel_holds_a_step_order_against_steps_without_a_value() {
    let style = get_chart_style();
    // No step is declared and the table has no row: one position is one too many.
    let empty = Frame::new(vec![ints("count", &[])]).unwrap();
    let config = ChartConfig { step_order: Some(vec![0]), ..funnel_config(&[]) };
    let error = chart::funnel::render(&empty, &config, &surface(), "t", &LegendPosition::Right, &style)
        .unwrap_err();
    assert_eq!(error, RenderError::StepOrderLength { given: 1, steps: 0 });
    assert_eq!(error.message(), "Step order length (1) must match number of steps (0)");

    // Steps are declared, but no row gives any of them a value.
    let steps = ["Visit", "Cart"];
    let config = ChartConfig { step_order: Some(vec![1, 0]), ..funnel_config(&steps) };
    let error = chart::funnel::render(&empty, &config, &surface(), "t", &LegendPosition::Right, &style)
        .unwrap_err();
    assert_eq!(error, RenderError::StepOrderLength { given: 2, steps: 0 });

    // No step is declared, and rows are there: the order is refused all the same.
    let frame = Frame::new(vec![ints("count", &[5, 3])]).unwrap();
    let config = ChartConfig { step_order: Some(vec![0]), ..funnel_config(&[]) };
    let error = chart::funnel::render(&frame, &config, &surface(), "t", &LegendPosition::Right, &style)
        .unwrap_err();
    assert_eq!(error, RenderError::StepOrderLength { given: 1, steps: 0 });

    // An order without positions fits no steps: nothing is drawn.
    let config = ChartConfig { step_order: Some(vec![]), ..funnel_config(&[]) };
    let plan = chart::funnel::render(&empty, &config, &surface(), "t", &LegendPosition::Right, &style);
    assert!(plan.unwrap().is_none());

    // Without an order a funnel without steps is no failure either.
    let plan = chart::funnel::render(&empty, &funnel_config(&[]), &surface(), "t", &LegendPosition::Right, &style);
    assert!(plan.unwrap().is_none());

    // A missing value column is reported before the order is looked at.
    let other = Frame::new(vec![ints("visits", &[])]).unwrap();
    let config = ChartConfig { step_order: Some(vec![0]), ..funnel_config(&[]) };
    let error = chart::funnel::render(&other, &config, &surface(), "t", &LegendPosition::Right, &style)
        .unwrap_err();
    assert_eq!(error, RenderError::ColumnNotFound { column: Binding::Values });
}

#[test]
fn test_validate_step_order() {
    assert_eq!(validate_step_order(&vec![2, 0, 1], 3), Ok(()));
    assert_eq!(validate_step_order(&vec![], 0), Ok(()));
    assert_eq!(
        validate_step_order(&vec![0, 1], 3),
        Err(RenderError::StepOrderLength { given: 2, steps: 3 })
    );
    assert_eq!(
        validate_step_order(&vec![0, 1, 2, 3], 3),
        Err(RenderError::StepOrderLength { given: 4, steps: 3 })
    );
    assert_eq!(
        validate_step_order(&vec![0, 5, 9], 3),
        Err(RenderError::StepOrderIndex { index: 5, steps: 3 })
    );
    // A position may stand twice: only length and range are checked.
    assert_eq!(validate_step_order(&vec![1, 1, 1], 3), Ok(()));
}

#[test]
fn funnel_draws_only_the_steps_that_have_a_row() {
    let style = get_chart_style();
    let frame = Frame::new(vec![ints("count", &[8, 4])]).unwrap();
    let config = funnel_config(&["a", "b", "c"]);
    let plan = chart::funnel::render(&frame, &config, &surface(), "t", &LegendPosition::Right, &style)
        .unwrap()
        .unwrap();
    assert_eq!(plan.segments.len(), 2);
    assert_eq!(plan.segments[0].bottom - plan.segments[0].top, 240);
    // The step order is checked against the steps that have a value.
    let config = ChartConfig { step_order: Some(vec![0, 1, 2]), ..funnel_config(&["a", "b", "c"]) };
    assert_eq!(
        chart::funnel::render(&frame, &config, &surface(), "t", &LegendPosition::Right, &style)
            .unwrap_err(),
        RenderError::StepOrderLength { given: 3, steps: 2 }
    );
}

#[test]
fn funnel_without_a_value_above_zero_gives_nothing_to_draw() {
    let style = get_chart_style();
    let side = LegendPosition::Right;
    let frame = Frame::new(vec![ints("count", &[0, -3])]).unwrap();
    let config = funnel_config(&["a", "b"]);
    assert!(chart::funnel::render(&frame, &config, &surface(), "t", &side, &style).unwrap().is_none());
    let empty = Frame::new(vec![ints("count", &[])]).unwrap();
    assert!(chart::funnel::render(&empty, &config, &surface(), "t", &side, &style).unwrap().is_none());
    // A segment for a value below zero has no width.
    let frame = Frame::new(vec![ints("count", &[10, -3])]).unwrap();
    let plan = chart::funnel::render(&frame, &config, &surface(), "t", &side, &style).unwrap().unwrap();
    assert_eq!(plan.segments[1].left, plan.segments[1].right);
}

#[test]
fn funnel_needs_its_steps_and_its_value_column() {
    let style = get_chart_style();
    let side = LegendPosition::Right;
    let frame = Frame::new(vec![ints("count", &[1])]).unwrap();
    let config = ChartConfig { steps: None, ..funnel_config(&[]) };
    let error = chart::funnel::render(&frame, &config, &surface(), "t", &side, &style).unwrap_err();
    assert_eq!(error.message(), "Funnel charts require a 'steps' field");
    let config = ChartConfig { values: None, ..funnel_config(&["a"]) };
    let error = chart::funnel::render(&frame, &config, &surface(), "t", &side, &style).unwrap_err();
    assert_eq!(error.message(), "Funnel charts require a 'values' field");
    let config = ChartConfig { values: Some("n".to_string()), ..funnel_config(&["a"]) };
    let error = chart::funnel::render(&frame, &config, &surface(), "t", &side, &style).unwrap_err();
    assert_eq!(error.message(), "Values column not found");
}

fn retention_config() -> ChartConfig {
    ChartConfig {
        chart_type: ChartType::Retention,
        cohort_date: Some("cohort".to_string()),
        period_number: Some("period".to_string()),
        users: Some("users".to_string()),
        ..Default::default()
    }
}

#[test]
fn retention_is_a_full_share_at_the_baseline_of_every_cohort() {
    let style = get_chart_style();
    let frame = Frame::new(vec![
        texts("cohort", &["B", "A", "B", "A"]),
        ints("period", &[2, 1, 1, 0]),
        ints("users", &[10, 50, 40, 100]),
    ])
    .unwrap();
    let plan = chart::retention::render(
        &frame,
        &retention_config(),
        &surface(),
        "Retention",
        &LegendPosition::Right,
        &style,
    )
    .unwrap()
    .unwrap();
    assert_eq!(plan.cohorts, vec!["A", "B"]);
    assert_eq!(plan.periods, vec![0, 1, 2]);
    // A starts in period 0 with 100, B in period 1 with 40.
    assert_eq!(plan.shares, vec![vec![100_000, 50_000, 0], vec![0, 100_000, 25_000]]);
    assert_eq!(plan.max_share, 100_000);
    assert_eq!(plan.colors[0][0], Rgb { r: 180, g: 144, b: 108 });
    assert_eq!(plan.colors[0][1], Rgb { r: 120, g: 96, b: 72 });
    assert_eq!(plan.colors[0][2], Rgb { r: 60, g: 48, b: 36 });
    assert_eq!(plan.colors[1][2], Rgb { r: 90, g: 72, b: 54 });
    assert_eq!((plan.x_label.as_str(), plan.y_label.as_str()), ("Period", "Cohort"));
}

#[test]
fn retention_takes_the_later_row_of_a_cohort_and_period() {
    let style = get_chart_style();
    let frame = Frame::new(vec![
        texts("cohort", &["A", "A", "A"]),
        ints("period", &[0, 1, 0]),
        ints("users", &[100, 30, 60]),
    ])
    .unwrap();
    let plan = chart::retention::render(
        &frame,
        &retention_config(),
        &surface(),
        "t",
        &LegendPosition::Right,
        &style,
    )
    .unwrap()
    .unwrap();
    assert_eq!(plan.shares, vec![vec![100_000, 50_000]]);
}

#[test]
fn retention_can_grow_past_the_baseline() {
    let style = get_chart_style();
    let frame = Frame::new(vec![
        texts("cohort", &["A", "A", "A"]),
        ints("period", &[0, 1, 2]),
        ints("users", &[3, 6, 1]),
    ])
    .unwrap();
    let plan = chart::retention::render(
        &frame,
        &retention_config(),
        &surface(),
        "t",
        &LegendPosition::Right,
        &style,
    )
    .unwrap()
    .unwrap();
    // A third of the baseline is 33.333 percent, rounded toward the floor.
    assert_eq!(plan.shares, vec![vec![100_000, 200_000, 33_333]]);
    assert_eq!(plan.max_share, 200_000);
    assert_eq!(plan.colors[0][1], Rgb { r: 180, g: 144, b: 108 });
    assert_eq!(plan.colors[0][0], Rgb { r: 120, g: 96, b: 72 });
}

#[test]
fn retention_with_a_baseline_of_zero_gives_nothing_to_draw() {
    let style = get_chart_style();
    let frame = Frame::new(vec![
        texts("cohort", &["A", "A"]),
        ints("period", &[0, 1]),
        ints("users", &[0, 7]),
    ])
    .unwrap();
    let drawn = chart::retention::render(
        &frame,
        &retention_config(),
        &surface(),
        "t",
        &LegendPosition::Right,
        &style,
    )
    .unwrap();
    assert!(drawn.is_none());
}

#[test]
fn retention_reads_periods_without_their_fraction() {
    let style = get_chart_style();
    let frame = Frame::new(vec![
        texts("cohort", &["A", "A", "A"]),
        column("period", vec![Cell::Real(1900), Cell::Real(-1900), text("later")]),
        ints("users", &[5, 10, 20]),
    ])
    .unwrap();
    let plan = chart::retention::render(
        &frame,
        &retention_config(),
        &surface(),
        "t",
        &LegendPosition::Right,
        &style,
    )
    .unwrap()
    .unwrap();
    // 1.9 is period 1, -1.9 is period -1, and a text is period 0.
    assert_eq!(plan.periods, vec![-1, 0, 1]);
    assert_eq!(plan.shares, vec![vec![100_000, 200_000, 50_000]]);
}

#[test]
fn retention_needs_its_three_columns() {
    let style = get_chart_style();
    let side = LegendPosition::Right;
    let frame = two_days();
    let config = ChartConfig { users: None, ..retention_config() };
    let error = chart::retention::render(&frame, &config, &surface(), "t", &side, &style).unwrap_err();
    assert_eq!(error.message(), "Retention charts require a 'users' field");
    let error =
        chart::retention::render(&frame, &retention_config(), &surface(), "t", &side, &style).unwrap_err();
    assert_eq!(error.message(), "Cohort date column not found");
    let config = ChartConfig { cohort_date: Some("date".to_string()), ..retention_config() };
    let error = chart::retention::render(&frame, &config, &surface(), "t", &side, &style).unwrap_err();
    assert_eq!(error.message(), "Period number column not found");
}
