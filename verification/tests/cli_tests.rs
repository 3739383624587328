use graff::chart::RenderError;
use graff::chart_spec::{
    ChartConfig, ChartSpec, ChartType, DataConfig, FilterValue, RequiredField, ValidationError,
};
use graff::cli::{
    apply_aggregation, apply_chart_transformations, apply_filter_config, batch_output_dir,
    convert_agg_type, convert_colormap_type, convert_theme_type, default_output_path,
    get_required_columns, handle_funnel_step_ordering, hyphenate, interactive_step_order,
    needs_step_order,
    parse_filter_string, parse_step_order, parse_steps, plan_batch_chart, process_single_chart,
    render_area_chart_cli, render_bar_chart_cli, render_bar_stacked_chart_cli,
    render_batch_charts, render_funnel_chart_cli, render_heatmap_chart_cli,
    render_line_chart_cli, render_retention_chart_cli, render_scatter_chart_cli, run, spec_format,
    summarize, AggregationType, AreaArgs, BarArgs, BarStackedArgs, BatchError, BatchSummary, Cli,
    CliAction, CliError, ColorMap, Commands, FunnelArgs, HeatmapArgs, LineArgs, OutputFormat,
    ProcessError, RenderArgs, RetentionArgs, ScatterArgs, SpecFormat, Theme,
};
use graff::frame::{Cell, Column, Frame};
use graff::loader::LoadError;
use graff::render::ChartPlan;
use graff::text::NumberFault;
use graff::transform::TransformError;

fn text(s: &str) -> Cell {
    Cell::Text(s.to_string())
}

fn column(name: &str, cells: Vec<Cell>) -> Column {
    Column { name: name.to_string(), cells }
}

// The table of "date,users,channel\n2023-01-01,100,organic\n2023-01-02,150,direct".
fn two_days() -> Frame {
    Frame::new(vec![
        column("date", vec![text("2023-01-01"), text("2023-01-02")]),
        column("users", vec![Cell::Int(100), Cell::Int(150)]),
        column("channel", vec![text("organic"), text("direct")]),
    ])
    .unwrap()
}

fn column_of(frame: &Frame, name: &str) -> Vec<Cell> {
    let c = frame.find_column(&name.to_string()).unwrap();
    (0..frame.height()).map(|r| frame.cell(c, r).clone()).collect()
}

fn line_args() -> LineArgs {
    LineArgs {
        input: "data/visits.csv".to_string(),
        x: "date".to_string(),
        y: "users".to_string(),
        group: None,
        agg: AggregationType::Sum,
        filter: None,
        title: None,
        out: None,
        width: 1400,
        height: 800,
    }
}

#[test]
fn test_convert_agg_type() {
    assert_eq!(convert_agg_type(&AggregationType::Sum), graff::chart_spec::AggregationType::Sum);
    assert_eq!(convert_agg_type(&AggregationType::Count), graff::chart_spec::AggregationType::Count);
    assert_eq!(convert_agg_type(&AggregationType::Mean), graff::chart_spec::AggregationType::Mean);
    assert_eq!(convert_agg_type(&AggregationType::Median), graff::chart_spec::AggregationType::Median);
    assert_eq!(convert_agg_type(&AggregationType::Min), graff::chart_spec::AggregationType::Min);
    assert_eq!(convert_agg_type(&AggregationType::Max), graff::chart_spec::AggregationType::Max);
}

#[test]
fn test_convert_colormap_type() {
    assert_eq!(convert_colormap_type(&ColorMap::Viridis), graff::chart_spec::ColorMap::Viridis);
    assert_eq!(convert_colormap_type(&ColorMap::Plasma), graff::chart_spec::ColorMap::Plasma);
    assert_eq!(convert_colormap_type(&ColorMap::Blues), graff::chart_spec::ColorMap::Blues);
    assert_eq!(convert_colormap_type(&ColorMap::Reds), graff::chart_spec::ColorMap::Reds);
    assert_eq!(convert_colormap_type(&ColorMap::Greens), graff::chart_spec::ColorMap::Greens);
}

#[test]
fn test_convert_theme_type() {
    assert_eq!(convert_theme_type(&Theme::Light), graff::chart_spec::Theme::Light);
    assert_eq!(convert_theme_type(&Theme::Dark), graff::chart_spec::Theme::Dark);
}

#[test]
fn test_parse_filter_string() {
    let filter = parse_filter_string("users > 150").unwrap();
    assert!(filter.includes.is_none());
    assert!(filter.exclude.is_none());
    assert_eq!(filter.expression, Some("users > 150".to_string()));
    assert!(parse_filter_string("").is_ok());
}

#[test]
fn a_filter_text_keeps_every_row() {
    let frame = two_days();
    for text in ["users > 150", "expression", "channel", ""] {
        let filter = parse_filter_string(text).unwrap();
        let kept = apply_filter_config(&frame, &filter).unwrap();
        assert_eq!(kept.column_names(), frame.column_names());
        assert_eq!(column_of(&kept, "users"), column_of(&frame, "users"));
        assert_eq!(column_of(&kept, "channel"), column_of(&frame, "channel"));
        assert_eq!(graff::transform::ignored_expression(&filter), Some(&text.to_string()));
    }
    // Also where the table has a column of the name `expression`.
    let named = Frame::new(vec![column("expression", vec![text("a"), text("b")])]).unwrap();
    let filter = parse_filter_string("a").unwrap();
    assert_eq!(apply_filter_config(&named, &filter).unwrap().height(), 2);
}

#[test]
fn a_command_with_a_filter_text_draws_every_row() {
    let args = LineArgs { filter: Some("users > 120".to_string()), agg: AggregationType::Sum, ..line_args() };
    let job = render_line_chart_cli(&args, &Theme::Light);
    assert!(job.config.validate().is_ok());
    let plan = process_single_chart(two_days(), &job.config).unwrap();
    match plan.chart {
        Some(ChartPlan::Line(line)) => assert_eq!(line.points.len(), 2),
        _ => panic!("the line command draws a line chart"),
    }
}

#[test]
fn test_get_required_columns() {
    let line = ChartConfig {
        x: Some("date".to_string()),
        y: Some("users".to_string()),
        z: Some("ignored".to_string()),
        group_by: Some("channel".to_string()),
        ..Default::default()
    };
    assert_eq!(get_required_columns(&line), vec!["date", "users", "channel"]);
    let heatmap = ChartConfig {
        chart_type: ChartType::Heatmap,
        x: Some("hour".to_string()),
        y: Some("day".to_string()),
        z: Some("value".to_string()),
        ..Default::default()
    };
    assert_eq!(get_required_columns(&heatmap), vec!["hour", "day", "value"]);
    let retention = ChartConfig {
        chart_type: ChartType::Retention,
        cohort_date: Some("cohort".to_string()),
        period_number: Some("period".to_string()),
        users: Some("users".to_string()),
        group_by: Some("plan".to_string()),
        ..Default::default()
    };
    assert_eq!(get_required_columns(&retention), vec!["cohort", "period", "users", "plan"]);
    let funnel = ChartConfig {
        chart_type: ChartType::Funnel,
        steps: Some(vec!["a".to_string()]),
        values: Some("count".to_string()),
        ..Default::default()
    };
    assert!(get_required_columns(&funnel).is_empty());
}

#[test]
fn the_line_command_declares_a_line_chart() {
    let args = LineArgs {
        group: Some("channel".to_string()),
        filter: Some("users > 1".to_string()),
        title: Some("Visits".to_string()),
        ..line_args()
    };
    let job = render_line_chart_cli(&args, &Theme::Dark);
    let c = &job.config;
    assert_eq!(c.chart_type, ChartType::Line);
    assert_eq!(c.title.as_deref(), Some("Visits"));
    assert_eq!(c.data.as_deref(), Some("data/visits.csv"));
    assert_eq!((c.x.as_deref(), c.y.as_deref()), (Some("date"), Some("users")));
    assert_eq!(c.group_by.as_deref(), Some("channel"));
    assert_eq!(c.agg, Some(graff::chart_spec::AggregationType::Sum));
    assert_eq!(c.filter.as_ref().unwrap().expression.as_deref(), Some("users > 1"));
    assert_eq!((c.width, c.height), (Some(1400), Some(800)));
    assert_eq!(c.theme, Some(graff::chart_spec::Theme::Dark));
    assert_eq!(c.format, Some(graff::chart_spec::OutputFormat::Png));
    assert!(c.z.is_none() && c.scale.is_none() && c.stacked.is_none() && c.steps.is_none());
    assert!(c.derive.is_none() && c.sort.is_none() && c.limit.is_none());
    assert_eq!(job.input, "data/visits.csv");
    assert_eq!(job.output_path, "visits-line.png");
    assert!(c.validate().is_ok());
}

#[test]
fn a_command_writes_to_the_file_given() {
    let args = LineArgs { out: Some("charts/out.png".to_string()), ..line_args() };
    assert_eq!(render_line_chart_cli(&args, &Theme::Light).output_path, "charts/out.png");
}

#[test]
fn the_default_output_file_is_named_after_the_input_and_the_kind() {
    assert_eq!(default_output_path(&Some("visits".to_string()), "line"), "visits-line.png");
    assert_eq!(default_output_path(&None, "bar-stacked"), "bar-stacked-bar-stacked.png");
    assert_eq!(default_output_path(&Some("".to_string()), "area"), "-area.png");
}

#[test]
fn every_chart_command_declares_its_kind() {
    let theme = Theme::Light;
    let area = AreaArgs {
        input: "a.csv".to_string(),
        x: "x".to_string(),
        y: "y".to_string(),
        group: None,
        agg: AggregationType::Mean,
        stacked: true,
        normalize: false,
        filter: None,
        title: None,
        out: None,
        width: 1400,
        height: 800,
    };
    let job = render_area_chart_cli(&area, &theme);
    assert_eq!(job.config.chart_type, ChartType::Area);
    assert_eq!((job.config.stacked, job.config.normalize), (Some(true), Some(false)));
    assert_eq!(job.config.agg, Some(graff::chart_spec::AggregationType::Mean));
    assert_eq!(job.output_path, "a-area.png");

    let bar = BarArgs {
        input: "a.csv".to_string(),
        x: "x".to_string(),
        y: "y".to_string(),
        group: None,
        agg: AggregationType::Sum,
        stacked: false,
        horizontal: true,
        filter: None,
        title: None,
        out: None,
        width: 1400,
        height: 800,
    };
    let job = render_bar_chart_cli(&bar, &theme);
    assert_eq!(job.config.chart_type, ChartType::Bar);
    assert_eq!((job.config.stacked, job.config.horizontal), (Some(false), Some(true)));
    assert_eq!(job.output_path, "a-bar.png");

    let stacked = BarStackedArgs {
        input: "a.csv".to_string(),
        x: "x".to_string(),
        y: "y".to_string(),
        group: Some("g".to_string()),
        agg: AggregationType::Sum,
        filter: None,
        title: None,
        out: None,
        width: 1400,
        height: 800,
    };
    let job = render_bar_stacked_chart_cli(&stacked, &theme);
    assert_eq!(job.config.chart_type, ChartType::BarStacked);
    assert_eq!(job.config.stacked, Some(true));
    assert_eq!(job.config.group_by.as_deref(), Some("g"));
    assert_eq!(job.output_path, "a-bar-stacked.png");

    let heatmap = HeatmapArgs {
        input: "a.csv".to_string(),
        x: "x".to_string(),
        y: "y".to_string(),
        z: "z".to_string(),
        bins: 10,
        colormap: ColorMap::Plasma,
        title: None,
        out: None,
        width: 1400,
        height: 800,
    };
    let job = render_heatmap_chart_cli(&heatmap, &theme);
    assert_eq!(job.config.chart_type, ChartType::Heatmap);
    assert_eq!(job.config.z.as_deref(), Some("z"));
    assert_eq!(job.config.bins, Some(10));
    assert_eq!(job.config.colormap, Some(graff::chart_spec::ColorMap::Plasma));
    assert!(job.config.agg.is_none() && job.config.filter.is_none());
    assert_eq!(job.output_path, "a-heatmap.png");

    let scatter = ScatterArgs {
        input: "a.csv".to_string(),
        x: "x".to_string(),
        y: "y".to_string(),
        group: None,
        filter: None,
        title: None,
        out: None,
        width: 1400,
        height: 800,
    };
    let job = render_scatter_chart_cli(&scatter, &theme);
    assert_eq!(job.config.chart_type, ChartType::Scatter);
    assert!(job.config.agg.is_none());
    assert_eq!(job.output_path, "a-scatter.png");

    let retention = RetentionArgs {
        input: "a.csv".to_string(),
        cohort_date: "cohort".to_string(),
        period_number: "period".to_string(),
        users: "users".to_string(),
        percentage: true,
        title: None,
        out: None,
        width: 1400,
        height: 800,
    };
    let job = render_retention_chart_cli(&retention, &theme);
    assert_eq!(job.config.chart_type, ChartType::Retention);
    assert_eq!(job.config.cohort_date.as_deref(), Some("cohort"));
    assert_eq!(job.config.period_number.as_deref(), Some("period"));
    assert_eq!(job.config.users.as_deref(), Some("users"));
    assert_eq!(job.config.percentage, Some(true));
    assert!(job.config.x.is_none() && job.config.y.is_none());
    assert_eq!(job.output_path, "a-retention.png");
}

fn funnel_args(steps: &str, order: Option<&str>) -> FunnelArgs {
    FunnelArgs {
        input: "funnel.csv".to_string(),
        steps: steps.to_string(),
        step_order: order.map(|s| s.to_string()),
        value_labels: graff::chart_spec::ValueLabelPosition::Left,
        values: "count".to_string(),
        conversion_rates: false,
        title: None,
        out: None,
        width: 1400,
        height: 800,
    }
}

#[test]
fn steps_are_the_names_between_the_commas() {
    assert_eq!(parse_steps("Visit, Cart ,Pay"), vec!["Visit", "Cart", "Pay"]);
    assert_eq!(parse_steps(" a ,, ,b,"), vec!["a", "b"]);
    assert_eq!(parse_steps("one"), vec!["one"]);
    assert!(parse_steps("").is_empty());
    assert!(parse_steps(" , ,").is_empty());
}

#[test]
fn a_step_order_is_a_list_of_positions() {
    assert_eq!(parse_step_order("2,0,1", 3), Ok(vec![2, 0, 1]));
    assert_eq!(parse_step_order(" 1 , +0 ", 2), Ok(vec![1, 0]));
    assert_eq!(parse_step_order("0", 1), Ok(vec![0]));
    assert_eq!(
        parse_step_order("0,x,1", 3),
        Err(CliError::InvalidStepOrder(NumberFault::InvalidDigit))
    );
    assert_eq!(parse_step_order("0,-1", 2), Err(CliError::InvalidStepOrder(NumberFault::InvalidDigit)));
    assert_eq!(parse_step_order("0,+", 2), Err(CliError::InvalidStepOrder(NumberFault::InvalidDigit)));
    assert_eq!(parse_step_order("0,,1", 3), Err(CliError::InvalidStepOrder(NumberFault::Empty)));
    assert_eq!(parse_step_order("", 0), Err(CliError::InvalidStepOrder(NumberFault::Empty)));
    assert_eq!(
        parse_step_order("99999999999999999999999999", 1),
        Err(CliError::InvalidStepOrder(NumberFault::TooLarge))
    );
    assert_eq!(
        parse_step_order("0,1", 3),
        Err(CliError::StepOrder(RenderError::StepOrderLength { given: 2, steps: 3 }))
    );
    assert_eq!(
        parse_step_order("0,1,3", 3),
        Err(CliError::StepOrder(RenderError::StepOrderIndex { index: 3, steps: 3 }))
    );
}

#[test]
fn step_order_messages_say_what_is_wrong() {
    assert_eq!(
        parse_step_order("a", 1).unwrap_err().message(),
        "Invalid step order: invalid digit found in string"
    );
    assert_eq!(
        parse_step_order("", 1).unwrap_err().message(),
        "Invalid step order: cannot parse integer from empty string"
    );
    assert_eq!(
        parse_step_order("99999999999999999999999999", 1).unwrap_err().message(),
        "Invalid step order: number too large to fit in target type"
    );
    assert_eq!(
        parse_step_order("0,1", 3).unwrap_err().message(),
        "Step order length (2) must match number of steps (3)"
    );
    assert_eq!(
        parse_step_order("0,1,5", 3).unwrap_err().message(),
        "Invalid step order index: 5 (max: 2)"
    );
    assert_eq!(CliError::NoSteps.message(), "No steps provided");
}

#[test]
fn a_blank_answer_keeps_the_declared_order() {
    assert_eq!(interactive_step_order("", 3), Ok(vec![0, 1, 2]));
    assert_eq!(interactive_step_order("  \n", 2), Ok(vec![0, 1]));
    assert_eq!(interactive_step_order("\n", 0), Ok(vec![]));
    assert_eq!(interactive_step_order(" 1,0 \n", 2), Ok(vec![1, 0]));
    assert_eq!(
        interactive_step_order("1,0,2\n", 2),
        Err(CliError::StepOrder(RenderError::StepOrderLength { given: 3, steps: 2 }))
    );
}

#[test]
fn the_step_order_is_asked_for_only_without_the_argument() {
    let steps = vec!["a".to_string(), "b".to_string()];
    assert_eq!(handle_funnel_step_ordering(&steps, &None), Ok(None));
    assert_eq!(handle_funnel_step_ordering(&steps, &Some("1,0".to_string())), Ok(Some(vec![1, 0])));
    assert_eq!(
        handle_funnel_step_ordering(&steps, &Some("1".to_string())),
        Err(CliError::StepOrder(RenderError::StepOrderLength { given: 1, steps: 2 }))
    );
}

#[test]
fn the_funnel_command_declares_its_steps_and_their_order() {
    let job = render_funnel_chart_cli(
        &funnel_args("Visit, Cart, Pay", Some("2,1,0")),
        &Theme::Light,
        &None,
    )
    .unwrap();
    let c = &job.config;
    assert_eq!(c.chart_type, ChartType::Funnel);
    assert_eq!(c.steps, Some(vec!["Visit".to_string(), "Cart".to_string(), "Pay".to_string()]));
    assert_eq!(c.step_order, Some(vec![2, 1, 0]));
    assert_eq!(c.values.as_deref(), Some("count"));
    assert_eq!(c.value_labels, Some(graff::chart_spec::ValueLabelPosition::Left));
    assert!(c.conversion_rates.is_none() && c.x.is_none() && c.agg.is_none());
    assert_eq!(job.output_path, "funnel-funnel.png");

    // Without the argument the answer at the prompt decides.
    let args = funnel_args("Visit, Cart", None);
    let job = render_funnel_chart_cli(&args, &Theme::Light, &Some("1,0\n".to_string())).unwrap();
    assert_eq!(job.config.step_order, Some(vec![1, 0]));
    let job = render_funnel_chart_cli(&args, &Theme::Light, &Some("\n".to_string())).unwrap();
    assert_eq!(job.config.step_order, Some(vec![0, 1]));
    let job = render_funnel_chart_cli(&args, &Theme::Light, &None).unwrap();
    assert_eq!(job.config.step_order, Some(vec![0, 1]));
}

#[test]
fn the_funnel_command_refuses_what_does_not_fit() {
    let theme = Theme::Light;
    assert_eq!(
        render_funnel_chart_cli(&funnel_args(" , ", Some("0")), &theme, &None).unwrap_err(),
        CliError::NoSteps
    );
    assert_eq!(
        render_funnel_chart_cli(&funnel_args("a,b", Some("0")), &theme, &None).unwrap_err(),
        CliError::StepOrder(RenderError::StepOrderLength { given: 1, steps: 2 })
    );
    assert_eq!(
        render_funnel_chart_cli(&funnel_args("a,b", None), &theme, &Some("0,7".to_string()))
            .unwrap_err(),
        CliError::StepOrder(RenderError::StepOrderIndex { index: 7, steps: 2 })
    );
}

fn cli(command: Commands) -> Cli {
    Cli {
        command,
        verbose: false,
        quiet: false,
        theme: Theme::Dark,
        scale: 1000,
        format: OutputFormat::Png,
    }
}

#[test]
fn a_command_line_asks_for_a_chart_or_for_a_batch() {
    let line = cli(Commands::Line(line_args()));
    assert!(!needs_step_order(&line));
    match run(&line, &None).unwrap() {
        CliAction::Chart(job) => {
            assert_eq!(job.config.chart_type, ChartType::Line);
            assert_eq!(job.config.theme, Some(graff::chart_spec::Theme::Dark));
        }
        CliAction::Batch(_) => panic!("the line command asks for a chart"),
    }
    let batch = cli(Commands::Render(RenderArgs {
        spec: "charts.yaml".to_string(),
        data: None,
        out: Some("out".to_string()),
        parallel: Some(4),
    }));
    match run(&batch, &None).unwrap() {
        CliAction::Batch(args) => {
            assert_eq!(args.spec, "charts.yaml");
            assert_eq!(args.out.as_deref(), Some("out"));
            assert_eq!(args.parallel, Some(4));
        }
        CliAction::Chart(_) => panic!("the render command asks for a batch"),
    }
    let funnel = cli(Commands::Funnel(funnel_args("a,b", None)));
    assert!(needs_step_order(&funnel));
    match run(&funnel, &Some("1,0".to_string())).unwrap() {
        CliAction::Chart(job) => assert_eq!(job.config.step_order, Some(vec![1, 0])),
        CliAction::Batch(_) => panic!("the funnel command asks for a chart"),
    }
    assert!(!needs_step_order(&cli(Commands::Funnel(funnel_args("a,b", Some("0,1"))))));
    assert_eq!(
        run(&cli(Commands::Funnel(funnel_args("", None))), &None).unwrap_err(),
        CliError::NoSteps
    );
}

#[test]
fn a_line_chart_of_two_days_is_made_without_an_error() {
    let job = render_line_chart_cli(&line_args(), &Theme::Light);
    let plan = process_single_chart(two_days(), &job.config).unwrap();
    assert_eq!((plan.surface.width, plan.surface.height), (1400, 800));
    match plan.chart {
        Some(ChartPlan::Line(line)) => {
            assert_eq!(line.points.len(), 2);
            assert_eq!((line.points[0].y, line.points[1].y), (100_000, 150_000));
        }
        _ => panic!("the line command draws a line chart"),
    }
    // The same chart from a bare declaration.
    let config = ChartConfig {
        x: Some("date".to_string()),
        y: Some("users".to_string()),
        ..Default::default()
    };
    let plan = process_single_chart(two_days(), &config).unwrap();
    assert!(matches!(plan.chart, Some(ChartPlan::Line(_))));
}

#[test]
fn a_heatmap_without_z_is_refused_before_it_is_drawn() {
    let config = ChartConfig {
        chart_type: ChartType::Heatmap,
        x: Some("date".to_string()),
        y: Some("users".to_string()),
        ..Default::default()
    };
    match process_single_chart(two_days(), &config).unwrap_err() {
        ProcessError::Validation(e) => assert_eq!(
            e,
            ValidationError::MissingField {
                chart_type: ChartType::Heatmap,
                field: RequiredField::Z
            }
        ),
        other => panic!("expected a validation error, got {:?}", other),
    }
}

#[test]
fn a_chart_is_made_in_the_order_check_columns_pipeline_layout() {
    // The declaration is faulty and so is everything else: the declaration is reported.
    let config = ChartConfig {
        x: Some("nowhere".to_string()),
        y: Some("users".to_string()),
        width: Some(1),
        ..Default::default()
    };
    assert!(matches!(
        process_single_chart(two_days(), &config),
        Err(ProcessError::Validation(ValidationError::WidthOutOfRange(1)))
    ));
    // A missing column is reported with a suggestion.
    let config = ChartConfig {
        x: Some("date".to_string()),
        y: Some("user".to_string()),
        ..Default::default()
    };
    match process_single_chart(two_days(), &config).unwrap_err() {
        ProcessError::Columns(LoadError::ColumnNotFound { column, suggestion, .. }) => {
            assert_eq!(column, "user");
            assert_eq!(suggestion.as_deref(), Some("users"));
        }
        other => panic!("expected a missing column, got {:?}", other),
    }
    // The pipeline fails on a derived column that cannot be read.
    let config = ChartConfig {
        x: Some("date".to_string()),
        y: Some("users".to_string()),
        derive: Some(vec![("week".to_string(), "week_of(date)".to_string())]),
        ..Default::default()
    };
    assert!(matches!(
        process_single_chart(two_days(), &config),
        Err(ProcessError::Transform(TransformError::UnsupportedExpression { .. }))
    ));
    // The layout fails on a funnel whose value column is not in the table.
    let config = ChartConfig {
        chart_type: ChartType::Funnel,
        steps: Some(vec!["a".to_string()]),
        values: Some("count".to_string()),
        ..Default::default()
    };
    match process_single_chart(two_days(), &config).unwrap_err() {
        ProcessError::Render(e) => assert_eq!(e.message(), "Values column not found"),
        other => panic!("expected a layout error, got {:?}", other),
    }
}

#[test]
fn a_chart_with_a_fold_groups_by_its_x_column() {
    let frame = Frame::new(vec![
        column("date", vec![text("mon"), text("tue"), text("mon")]),
        column("users", vec![Cell::Int(1), Cell::Int(2), Cell::Int(4)]),
        column("channel", vec![text("a"), text("b"), text("b")]),
    ])
    .unwrap();
    let by_x = ChartConfig {
        x: Some("date".to_string()),
        y: Some("users".to_string()),
        agg: Some(graff::chart_spec::AggregationType::Sum),
        ..Default::default()
    };
    let ready = apply_chart_transformations(frame, &by_x).unwrap();
    assert_eq!(column_of(&ready, "date"), vec![text("mon"), text("tue")]);
    assert_eq!(column_of(&ready, "users"), vec![Cell::Int(5), Cell::Int(2)]);

    let frame = Frame::new(vec![
        column("date", vec![text("mon"), text("tue"), text("mon")]),
        column("users", vec![Cell::Int(1), Cell::Int(2), Cell::Int(4)]),
        column("channel", vec![text("a"), text("b"), text("b")]),
    ])
    .unwrap();
    let by_group = ChartConfig { group_by: Some("channel".to_string()), ..by_x };
    let ready = apply_chart_transformations(frame, &by_group).unwrap();
    assert_eq!(column_of(&ready, "channel"), vec![text("a"), text("b")]);
    assert_eq!(column_of(&ready, "users"), vec![Cell::Int(1), Cell::Int(6)]);

    // Without a fold the rows stay as they are.
    let no_fold = ChartConfig { agg: None, ..by_group };
    assert_eq!(apply_chart_transformations(two_days(), &no_fold).unwrap().height(), 2);
}

#[test]
fn aggregation_needs_both_of_its_columns() {
    let frame = two_days();
    let sum = graff::chart_spec::AggregationType::Sum;
    let grouped =
        apply_aggregation(&frame, &"channel".to_string(), &"users".to_string(), &sum).unwrap();
    assert_eq!(column_of(&grouped, "users"), vec![Cell::Int(100), Cell::Int(150)]);
    assert!(matches!(
        apply_aggregation(&frame, &"channel".to_string(), &"visits".to_string(), &sum),
        Err(TransformError::ColumnNotFound { column, .. }) if column == "visits"
    ));
    assert!(matches!(
        apply_aggregation(&frame, &"team".to_string(), &"visits".to_string(), &sum),
        Err(TransformError::ColumnNotFound { column, .. }) if column == "team"
    ));
    let filter = graff::chart_spec::FilterConfig {
        includes: Some(vec![("team".to_string(), FilterValue::Single("a".to_string()))]),
        exclude: None,
        expression: None,
    };
    assert!(matches!(
        apply_filter_config(&frame, &filter),
        Err(TransformError::ColumnNotFound { column, .. }) if column == "team"
    ));
}

fn batch_spec() -> ChartSpec {
    ChartSpec {
        data: None,
        charts: vec![
            ChartConfig {
                title: Some("Daily Users".to_string()),
                data: Some("visits.csv".to_string()),
                x: Some("date".to_string()),
                y: Some("users".to_string()),
                ..Default::default()
            },
            ChartConfig {
                chart_type: ChartType::BarStacked,
                x: Some("date".to_string()),
                y: Some("users".to_string()),
                format: Some(graff::chart_spec::OutputFormat::Svg),
                ..Default::default()
            },
        ],
    }
}

#[test]
fn a_batch_with_a_failed_chart_fails_and_still_makes_the_others() {
    let spec = batch_spec();
    let plans = render_batch_charts(&spec, "out");
    assert_eq!(plans.len(), 2);
    let first = plans[0].as_ref().unwrap();
    assert_eq!(first.number, 1);
    assert_eq!(first.name, "Daily Users");
    assert_eq!(first.data_path, "visits.csv");
    assert_eq!(first.output_path, "out/daily-users-Line.png");
    // The second chart names no data and the batch has no default.
    assert_eq!(
        plans[1].as_ref().unwrap_err(),
        &BatchError::NoDataSource { name: "chart_2".to_string() }
    );
    assert_eq!(
        plans[1].as_ref().unwrap_err().message(),
        "No data source specified for chart 'chart_2'"
    );
    // The first chart is made, the second is counted as failed.
    let made = process_single_chart(two_days(), &spec.charts[0]).is_ok();
    let summary = summarize(&vec![made, plans[1].is_ok()]);
    assert_eq!(summary, BatchSummary { successful: 1, failed: 1 });
    assert_eq!(summary.exit_code(), 1);
    assert_eq!(summary.message(), "\nSummary: 1 successful, 1 failed");
}

#[test]
fn a_batch_uses_its_default_data_for_a_chart_without_data() {
    let spec = ChartSpec {
        data: Some(DataConfig { default: Some("all.csv".to_string()), sources: None }),
        ..batch_spec()
    };
    let second = plan_batch_chart(&spec, 1, "out/").unwrap();
    assert_eq!(second.number, 2);
    assert_eq!(second.name, "chart_2");
    assert_eq!(second.data_path, "all.csv");
    assert_eq!(second.output_path, "out/chart_2-BarStacked.svg");
    assert_eq!(plan_batch_chart(&spec, 0, "").unwrap().data_path, "visits.csv");
    assert_eq!(plan_batch_chart(&spec, 0, "").unwrap().output_path, "daily-users-Line.png");
}

#[test]
fn a_batch_succeeds_when_every_chart_is_made() {
    assert_eq!(summarize(&vec![]), BatchSummary { successful: 0, failed: 0 });
    assert_eq!(summarize(&vec![]).exit_code(), 0);
    let summary = summarize(&vec![true, true, true]);
    assert_eq!(summary, BatchSummary { successful: 3, failed: 0 });
    assert_eq!(summary.exit_code(), 0);
    assert_eq!(summary.message(), "\nSummary: 3 successful, 0 failed");
    assert_eq!(summarize(&vec![false, true, false]), BatchSummary { successful: 1, failed: 2 });
}

#[test]
fn the_charts_of_a_batch_go_to_the_directory_given_or_to_the_default() {
    let home = Some("/home/ada".to_string());
    assert_eq!(batch_output_dir(&Some("out".to_string()), false, &home), "out");
    assert_eq!(batch_output_dir(&None, true, &home), "tests/output");
    assert_eq!(batch_output_dir(&None, false, &home), "/home/ada/Desktop/graff");
    assert_eq!(batch_output_dir(&None, false, &None), "./Desktop/graff");
    assert_eq!(batch_output_dir(&None, false, &Some("/".to_string())), "/Desktop/graff");
}

#[test]
fn a_specification_is_json_only_by_its_extension() {
    assert_eq!(spec_format(&Some("json".to_string())), SpecFormat::Json);
    assert_eq!(spec_format(&Some("yaml".to_string())), SpecFormat::Yaml);
    assert_eq!(spec_format(&Some("JSON".to_string())), SpecFormat::Yaml);
    assert_eq!(spec_format(&None), SpecFormat::Yaml);
}

#[test]
fn spaces_become_hyphens() {
    assert_eq!(hyphenate("daily active users"), "daily-active-users");
    assert_eq!(hyphenate(" a  b "), "-a--b-");
    assert_eq!(hyphenate("no_space"), "no_space");
    assert_eq!(hyphenate(""), "");
}
