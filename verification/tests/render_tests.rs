use graff::chart::{RenderError, Surface};
use graff::chart_spec::{ChartConfig, ChartType, LegendPosition, OutputFormat, Theme};
use graff::frame::{Cell, Column, Frame};
use graff::render::{
    generate_output_filename, get_legend_items, output_file, render_chart, render_chart_impl,
    render_external_legend, split_drawing_area, Backend, ChartPlan, Region,
};
use graff::styling::{
    get_chart_style, get_chart_style_with_theme, get_heatmap_style, ChartStyle, ColorPalette, Rgb,
};

fn text(s: &str) -> Cell {
    Cell::Text(s.to_string())
}

fn column(name: &str, cells: Vec<Cell>) -> Column {
    Column { name: name.to_string(), cells }
}

fn two_days() -> Frame {
    Frame::new(vec![
        column("date", vec![text("2023-01-01"), text("2023-01-02")]),
        column("users", vec![Cell::Int(100), Cell::Int(150)]),
        column("channel", vec![text("organic"), text("direct")]),
    ])
    .unwrap()
}

fn axes(chart_type: ChartType, x: &str, y: &str) -> ChartConfig {
    ChartConfig {
        chart_type,
        x: Some(x.to_string()),
        y: Some(y.to_string()),
        ..Default::default()
    }
}

#[test]
fn a_side_legend_takes_a_quarter_of_the_width() {
    let surface = Surface { width: 1000, height: 600 };
    let (chart, legend) = split_drawing_area(&surface, &LegendPosition::Right);
    assert_eq!(chart, Region { x: 0, y: 0, width: 750, height: 600 });
    assert_eq!(legend, Region { x: 750, y: 0, width: 250, height: 600 });
    let (chart, legend) = split_drawing_area(&surface, &LegendPosition::Left);
    assert_eq!(chart, Region { x: 250, y: 0, width: 750, height: 600 });
    assert_eq!(legend, Region { x: 0, y: 0, width: 250, height: 600 });
}

#[test]
fn a_band_legend_takes_fifteen_hundredths_of_the_height() {
    let surface = Surface { width: 1000, height: 600 };
    let (chart, legend) = split_drawing_area(&surface, &LegendPosition::Top);
    assert_eq!(chart, Region { x: 0, y: 90, width: 1000, height: 510 });
    assert_eq!(legend, Region { x: 0, y: 0, width: 1000, height: 90 });
    let (chart, legend) = split_drawing_area(&surface, &LegendPosition::Bottom);
    assert_eq!(chart, Region { x: 0, y: 0, width: 1000, height: 510 });
    assert_eq!(legend, Region { x: 0, y: 510, width: 1000, height: 90 });
}

#[test]
fn the_split_rounds_the_legend_down() {
    let surface = Surface { width: 1003, height: 799 };
    let (chart, legend) = split_drawing_area(&surface, &LegendPosition::Right);
    assert_eq!((chart.width, legend.width), (753, 250));
    let (chart, legend) = split_drawing_area(&surface, &LegendPosition::Bottom);
    assert_eq!((chart.height, legend.height), (680, 119));
    let tiny = Surface { width: 3, height: 5 };
    let (chart, legend) = split_drawing_area(&tiny, &LegendPosition::Left);
    assert_eq!((chart.x, chart.width, legend.width), (0, 3, 0));
    let huge = Surface { width: u32::MAX, height: u32::MAX };
    let (chart, legend) = split_drawing_area(&huge, &LegendPosition::Top);
    assert_eq!(chart.height as u64 + legend.height as u64, u32::MAX as u64);
}

#[test]
fn legends_name_the_value_column() {
    let frame = two_days();
    for kind in [ChartType::Line, ChartType::Area, ChartType::Bar] {
        assert_eq!(get_legend_items(&frame, &axes(kind, "date", "users")), vec!["users"]);
    }
    let no_y = ChartConfig { y: None, ..axes(ChartType::Line, "date", "users") };
    assert!(get_legend_items(&frame, &no_y).is_empty());
    let heatmap = ChartConfig { z: Some("z".to_string()), ..axes(ChartType::Heatmap, "x", "y") };
    assert_eq!(get_legend_items(&frame, &heatmap), vec!["z"]);
    assert_eq!(get_legend_items(&frame, &axes(ChartType::Heatmap, "x", "y")), vec!["y"]);
    assert_eq!(
        get_legend_items(&frame, &axes(ChartType::Scatter, "date", "users")),
        vec!["users vs date"]
    );
    let retention = ChartConfig { chart_type: ChartType::Retention, ..Default::default() };
    assert_eq!(get_legend_items(&frame, &retention), vec!["Retention %"]);
}

#[test]
fn the_legend_of_stacked_bars_lists_the_groups_in_the_order_of_their_layers() {
    let frame = two_days();
    let config = ChartConfig {
        group_by: Some("channel".to_string()),
        ..axes(ChartType::BarStacked, "date", "users")
    };
    assert_eq!(get_legend_items(&frame, &config), vec!["direct", "organic"]);
    let config = ChartConfig {
        group_by: Some("team".to_string()),
        ..axes(ChartType::BarStacked, "date", "users")
    };
    assert!(get_legend_items(&frame, &config).is_empty());
}

fn funnel_config(order: Option<Vec<usize>>) -> ChartConfig {
    ChartConfig {
        chart_type: ChartType::Funnel,
        steps: Some(vec!["Cart".to_string(), "Visit".to_string(), "Pay".to_string()]),
        values: Some("count".to_string()),
        step_order: order,
        ..Default::default()
    }
}

#[test]
fn the_legend_of_a_funnel_follows_its_segments() {
    let frame = Frame::new(vec![column(
        "count",
        vec![Cell::Int(50), Cell::Int(100), Cell::Int(25)],
    )])
    .unwrap();
    let style = get_chart_style();
    let surface = Surface { width: 800, height: 600 };
    let side = LegendPosition::Right;
    for order in [None, Some(vec![2, 0, 1]), Some(vec![0, 1, 2]), Some(vec![1, 1, 0])] {
        let config = funnel_config(order);
        let plan = graff::chart::funnel::render(&frame, &config, &surface, "t", &side, &style)
            .unwrap()
            .unwrap();
        let names: Vec<String> = plan.segments.iter().map(|s| s.name.clone()).collect();
        assert_eq!(get_legend_items(&frame, &config), names);
    }
    assert_eq!(get_legend_items(&frame, &funnel_config(None)), vec!["Visit", "Cart", "Pay"]);
    assert_eq!(
        get_legend_items(&frame, &funnel_config(Some(vec![2, 0, 1]))),
        vec!["Pay", "Cart", "Visit"]
    );
    // A funnel that cannot be drawn lists its steps as declared.
    assert_eq!(
        get_legend_items(&frame, &funnel_config(Some(vec![0, 9, 1]))),
        vec!["Cart", "Visit", "Pay"]
    );
    assert_eq!(
        get_legend_items(&two_days(), &funnel_config(None)),
        vec!["Cart", "Visit", "Pay"]
    );
}

#[test]
fn legend_entries_stand_below_each_other() {
    let style = get_chart_style();
    let items = vec!["users".to_string(), "sessions".to_string(), "views".to_string()];
    let legend = render_external_legend(&items, 250, &style);
    assert_eq!(legend.background, Rgb { r: 255, g: 255, b: 255 });
    assert_eq!(legend.entries.len(), 3);
    let e = &legend.entries[0];
    assert_eq!((e.left, e.top, e.right, e.bottom), (15, 30, 35, 45));
    assert_eq!((e.text_x, e.text_y), (45, 42));
    assert_eq!(e.color, Rgb { r: 31, g: 119, b: 180 });
    let e = &legend.entries[2];
    assert_eq!((e.top, e.bottom, e.text_y), (100, 115, 112));
    assert_eq!(e.color, Rgb { r: 44, g: 160, b: 44 });
    assert_eq!(e.text, "views");
}

#[test]
fn legend_text_is_cut_to_the_budget_once_the_budget_is_above_ten() {
    let style = get_chart_style();
    let long = "abcdefghijklmnopqrstuvwxyz".to_string();
    // 250 pixels leave room for 23 characters: 20 and three dots.
    let legend = render_external_legend(&vec![long.clone()], 250, &style);
    assert_eq!(legend.entries[0].text, "abcdefghijklmnopqrst...");
    // 148 pixels leave room for 11 characters: 8 and three dots.
    let legend = render_external_legend(&vec![long.clone()], 148, &style);
    assert_eq!(legend.entries[0].text, "abcdefgh...");
    // A budget of ten or fewer leaves the text whole.
    let legend = render_external_legend(&vec![long.clone()], 147, &style);
    assert_eq!(legend.entries[0].text, long);
    let legend = render_external_legend(&vec![long.clone()], 10, &style);
    assert_eq!(legend.entries[0].text, long);
    // A text that fits is left whole.
    let fits = "abcdefghijklmnopqrstuvw".to_string();
    let legend = render_external_legend(&vec![fits.clone()], 250, &style);
    assert_eq!(legend.entries[0].text, fits);
    // Characters are counted, not bytes.
    let accents = "éééééééééééééééééééééééééé".to_string();
    let legend = render_external_legend(&vec![accents], 250, &style);
    assert_eq!(legend.entries[0].text, "éééééééééééééééééééé...");
}

#[test]
fn file_names_are_made_of_the_safe_title_the_kind_and_the_extension() {
    let config = ChartConfig {
        title: Some("Daily Users: Q1/2023".to_string()),
        ..axes(ChartType::Line, "date", "users")
    };
    assert_eq!(generate_output_filename(&config, "out"), "out/daily-users--q1-2023-Line.png");
    assert_eq!(generate_output_filename(&config, "out/"), "out/daily-users--q1-2023-Line.png");
    assert_eq!(generate_output_filename(&config, ""), "daily-users--q1-2023-Line.png");
    let config = ChartConfig {
        chart_type: ChartType::BarStacked,
        format: Some(OutputFormat::Svg),
        ..Default::default()
    };
    assert_eq!(generate_output_filename(&config, "/tmp"), "/tmp/chart-BarStacked.svg");
    let config = ChartConfig {
        chart_type: ChartType::Retention,
        title: Some("Ünïcode_título-9".to_string()),
        format: Some(OutputFormat::Pdf),
        ..Default::default()
    };
    assert_eq!(generate_output_filename(&config, "x"), "x/ünïcode_título-9-Retention.pdf");
}

#[test]
fn a_chart_is_laid_out_on_800_by_600_pixels_by_default() {
    let config = axes(ChartType::Line, "date", "users");
    let plan = render_chart(&two_days(), &config).unwrap();
    assert_eq!(plan.surface, Surface { width: 800, height: 600 });
    assert_eq!(plan.backend, Backend::Bitmap);
    assert_eq!(plan.background, Rgb { r: 255, g: 255, b: 255 });
    assert_eq!(plan.title, "Chart");
    assert_eq!(plan.chart_region, Region { x: 0, y: 0, width: 600, height: 600 });
    assert_eq!(plan.legend_region, Region { x: 600, y: 0, width: 200, height: 600 });
    assert_eq!(plan.legend.entries.len(), 1);
    assert_eq!(plan.legend.entries[0].text, "users");
    match plan.chart {
        Some(ChartPlan::Line(line)) => {
            assert_eq!(line.title, "Chart");
            assert_eq!(line.points.len(), 2);
            assert_eq!(line.y_upper, 165_000);
        }
        _ => panic!("a line chart is planned as a line chart"),
    }
}

#[test]
fn a_chart_follows_the_declared_size_theme_format_and_legend_side() {
    let config = ChartConfig {
        title: Some("Users".to_string()),
        width: Some(1000),
        height: Some(400),
        theme: Some(Theme::Dark),
        format: Some(OutputFormat::Svg),
        legend_position: Some(LegendPosition::Top),
        ..axes(ChartType::Bar, "date", "users")
    };
    let plan = render_chart(&two_days(), &config).unwrap();
    assert_eq!(plan.surface, Surface { width: 1000, height: 400 });
    assert_eq!(plan.backend, Backend::Svg);
    assert_eq!(plan.background, Rgb { r: 33, g: 37, b: 41 });
    assert_eq!(plan.legend.background, Rgb { r: 33, g: 37, b: 41 });
    assert_eq!(plan.title, "Users");
    assert_eq!(plan.chart_region, Region { x: 0, y: 60, width: 1000, height: 340 });
    assert_eq!(plan.legend.entries[0].color, Rgb { r: 114, g: 158, b: 206 });
    match plan.chart {
        Some(ChartPlan::Bar(bars)) => {
            assert_eq!(bars.bars[1].color, Rgb { r: 255, g: 158, b: 74 });
        }
        _ => panic!("a bar chart is planned as a bar chart"),
    }
    let pdf = ChartConfig { format: Some(OutputFormat::Pdf), ..axes(ChartType::Bar, "date", "users") };
    assert_eq!(render_chart(&two_days(), &pdf).unwrap().backend, Backend::Bitmap);
}

#[test]
fn every_kind_is_planned_as_its_own_kind() {
    let frame = Frame::new(vec![
        column("date", vec![text("a"), text("b")]),
        column("users", vec![Cell::Int(100), Cell::Int(150)]),
        column("channel", vec![text("organic"), text("direct")]),
        column("period", vec![Cell::Int(0), Cell::Int(1)]),
    ])
    .unwrap();
    let plan = |config: &ChartConfig| render_chart(&frame, config).unwrap().chart.unwrap();
    assert!(matches!(plan(&axes(ChartType::Line, "date", "users")), ChartPlan::Line(_)));
    assert!(matches!(plan(&axes(ChartType::Area, "date", "users")), ChartPlan::Area(_)));
    assert!(matches!(plan(&axes(ChartType::Bar, "date", "users")), ChartPlan::Bar(_)));
    assert!(matches!(plan(&axes(ChartType::Scatter, "period", "users")), ChartPlan::Scatter(_)));
    assert!(matches!(plan(&axes(ChartType::Heatmap, "date", "users")), ChartPlan::Heatmap(_)));
    let stacked = ChartConfig {
        group_by: Some("channel".to_string()),
        ..axes(ChartType::BarStacked, "date", "users")
    };
    assert!(matches!(plan(&stacked), ChartPlan::BarStacked(_)));
    let funnel = ChartConfig {
        chart_type: ChartType::Funnel,
        steps: Some(vec!["a".to_string(), "b".to_string()]),
        values: Some("users".to_string()),
        ..Default::default()
    };
    assert!(matches!(plan(&funnel), ChartPlan::Funnel(_)));
    let retention = ChartConfig {
        chart_type: ChartType::Retention,
        cohort_date: Some("channel".to_string()),
        period_number: Some("period".to_string()),
        users: Some("users".to_string()),
        ..Default::default()
    };
    assert!(matches!(plan(&retention), ChartPlan::Retention(_)));
}

#[test]
fn the_funnel_is_laid_out_on_the_chart_region() {
    let frame = Frame::new(vec![column("count", vec![Cell::Int(10), Cell::Int(5)])]).unwrap();
    let config = ChartConfig {
        chart_type: ChartType::Funnel,
        steps: Some(vec!["a".to_string(), "b".to_string()]),
        values: Some("count".to_string()),
        width: Some(1000),
        height: Some(500),
        ..Default::default()
    };
    let plan = render_chart(&frame, &config).unwrap();
    // The chart region is 750 by 500 pixels: the funnel is 450 wide.
    match plan.chart {
        Some(ChartPlan::Funnel(funnel)) => {
            let s = &funnel.segments[0];
            assert_eq!((s.left, s.right), (150, 600));
            assert_eq!((s.top, s.bottom), (150, 300));
        }
        _ => panic!("a funnel is planned as a funnel"),
    }
}

#[test]
fn a_chart_that_cannot_be_laid_out_gives_no_plan() {
    let config = axes(ChartType::Line, "date", "visits");
    let error = render_chart(&two_days(), &config).unwrap_err();
    assert_eq!(error, RenderError::ColumnNotFound { column: graff::chart::Binding::Y });
    let style = get_chart_style();
    let surface = Surface { width: 640, height: 480 };
    assert!(render_chart_impl(&two_days(), &config, &surface, &style).is_err());
    let config = axes(ChartType::Line, "date", "users");
    let plan = render_chart_impl(&two_days(), &config, &surface, &style).unwrap();
    assert_eq!(plan.surface, surface);
    assert_eq!(plan.chart_region.width, 480);
}

#[test]
fn themes_have_their_palettes() {
    let light = get_chart_style();
    assert_eq!(light.theme, Theme::Light);
    assert_eq!(light.colors.primary.len(), 10);
    assert_eq!(light.colors.primary[0], Rgb { r: 31, g: 119, b: 180 });
    assert_eq!(light.colors.primary[9], Rgb { r: 23, g: 190, b: 207 });
    assert_eq!(light.colors.text.title, Rgb { r: 33, g: 37, b: 41 });
    assert_eq!(light.colors.text.grid, Rgb { r: 222, g: 226, b: 230 });
    assert_eq!(light.colors.background.canvas, Rgb { r: 255, g: 255, b: 255 });
    let dark = get_chart_style_with_theme(&Theme::Dark);
    assert_eq!(dark.theme, Theme::Dark);
    assert_eq!(dark.colors.primary[0], Rgb { r: 114, g: 158, b: 206 });
    assert_eq!(dark.colors.primary[9], Rgb { r: 109, g: 204, b: 218 });
    assert_eq!(dark.colors.text.title, Rgb { r: 248, g: 249, b: 250 });
    assert_eq!(dark.colors.background.chart, Rgb { r: 33, g: 37, b: 41 });
    assert_eq!(ColorPalette::new(&Theme::Dark).primary, dark.colors.primary);
    assert_eq!(ChartStyle::new(Theme::Light).colors.primary, light.colors.primary);
}

#[test]
fn styles_share_their_sizes_and_metrics() {
    for theme in [Theme::Light, Theme::Dark] {
        let style = ChartStyle::new(theme);
        assert_eq!(style.typography.font_family, "sans-serif");
        assert_eq!(style.typography.sizes.title, 36);
        assert_eq!(style.typography.sizes.axis_description, 20);
        assert_eq!(style.typography.sizes.axis_labels, 16);
        assert_eq!(style.typography.sizes.legend, 14);
        assert_eq!((style.layout.margins.chart, style.layout.margins.complex), (30, 40));
        assert_eq!(style.layout.areas.x_label_area, 80);
        assert_eq!(style.layout.areas.y_label_area, 80);
        assert_eq!(style.layout.areas.legend_area, 60);
        assert_eq!(style.layout.elements.line_points, 4);
        assert_eq!(style.layout.elements.line_width, 2);
        assert_eq!(style.layout.elements.bar_spacing, 80);
        assert_eq!(style.spacing.element_padding, 10);
        assert_eq!(style.spacing.series_spacing, 5);
        assert_eq!(style.spacing.text_padding, 8);
    }
    let heat = get_heatmap_style();
    assert_eq!(heat.intensity_range, (60, 180));
    assert_eq!(heat.gradient_colors.0, Rgb { r: 180, g: 190, b: 200 });
    assert_eq!(heat.gradient_colors.1, Rgb { r: 60, g: 80, b: 120 });
}

#[test]
fn series_colours_repeat_in_a_cycle() {
    let style = get_chart_style();
    assert_eq!(style.get_primary_color(0), Rgb { r: 31, g: 119, b: 180 });
    assert_eq!(style.get_primary_color(3), Rgb { r: 214, g: 39, b: 40 });
    assert_eq!(style.get_primary_color(10), style.get_primary_color(0));
    assert_eq!(style.get_primary_color(25), style.get_primary_color(5));
    assert_eq!(style.get_primary_color(usize::MAX), style.get_primary_color(usize::MAX % 10));
}

#[test]
fn fonts_take_their_size_and_colour_from_the_style() {
    let style = get_chart_style_with_theme(&Theme::Dark);
    let title = style.title_font();
    assert_eq!((title.family.as_str(), title.size), ("sans-serif", 36));
    assert_eq!(title.color, Rgb { r: 248, g: 249, b: 250 });
    let axis = style.axis_desc_font();
    assert_eq!((axis.size, axis.color), (20, Rgb { r: 200, g: 200, b: 200 }));
    let label = style.axis_label_font();
    assert_eq!((label.size, label.color), (16, Rgb { r: 180, g: 180, b: 180 }));
    let legend = style.legend_font();
    assert_eq!((legend.size, legend.color), (14, Rgb { r: 180, g: 180, b: 180 }));
}

#[test]
fn a_file_is_named_by_its_stem_its_kind_and_its_format() {
    assert_eq!(output_file("out", "visits", ChartType::Line, OutputFormat::Png), "out/visits-Line.png");
    assert_eq!(output_file("out/", "v", ChartType::Heatmap, OutputFormat::Svg), "out/v-Heatmap.svg");
    assert_eq!(output_file("", "", ChartType::Funnel, OutputFormat::Pdf), "-Funnel.pdf");
    assert_eq!(output_file("/", "a b", ChartType::Area, OutputFormat::Png), "/a b-Area.png");
}

#[test]
fn a_step_order_reorders_the_legend_whatever_the_table_holds() {
    let config = ChartConfig {
        chart_type: ChartType::Funnel,
        steps: Some(vec!["a".to_string(), "b".to_string(), "c".to_string()]),
        step_order: Some(vec![2, 0, 1]),
        values: Some("count".to_string()),
        ..Default::default()
    };
    // A table without a column, and so without a row.
    let empty = Frame::new(vec![]).unwrap();
    assert_eq!(get_legend_items(&empty, &config), vec!["c", "a", "b"]);
    // A table without the value column.
    assert_eq!(get_legend_items(&two_days(), &config), vec!["c", "a", "b"]);
    // A table with fewer rows than steps.
    let short = Frame::new(vec![column("count", vec![Cell::Int(7)])]).unwrap();
    assert_eq!(get_legend_items(&short, &config), vec!["c", "a", "b"]);
    // A table with a row for every step.
    let full = Frame::new(vec![column(
        "count",
        vec![Cell::Int(1), Cell::Int(3), Cell::Int(2)],
    )])
    .unwrap();
    assert_eq!(get_legend_items(&full, &config), vec!["c", "a", "b"]);
    // Without a step order and without values the steps stand as declared.
    let plain = ChartConfig { step_order: None, ..config };
    assert_eq!(get_legend_items(&empty, &plain), vec!["a", "b", "c"]);
    assert_eq!(get_legend_items(&full, &plain), vec!["b", "c", "a"]);
    // A step order that does not fit the steps is not followed.
    let long = ChartConfig { step_order: Some(vec![1, 0]), ..plain };
    assert_eq!(get_legend_items(&empty, &long), vec!["a", "b", "c"]);
    let wide = ChartConfig { step_order: Some(vec![1, 0, 3]), ..long };
    assert_eq!(get_legend_items(&full, &wide), vec!["a", "b", "c"]);
}
