use graff::chart_spec::{AggregationType, FilterConfig, FilterValue, SortConfig};
use graff::frame::{Cell, Column, Frame};
use graff::transform::{
    apply_filters, apply_grouping, apply_limit, apply_sorting, apply_transforms,
    ignored_expression, TransformConfig, TransformError,
};

fn text(s: &str) -> Cell {
    Cell::Text(s.to_string())
}

fn column(name: &str, cells: Vec<Cell>) -> Column {
    Column { name: name.to_string(), cells }
}

// The table of the file
// "date,users,channel,value\n2023-01-01,100,organic,10\n2023-01-02,150,direct,20\n
//  2023-01-01,200,organic,15\n2023-01-02,250,direct,25".
fn create_test_frame() -> Frame {
    Frame::new(vec![
        column(
            "date",
            vec![text("2023-01-01"), text("2023-01-02"), text("2023-01-01"), text("2023-01-02")],
        ),
        column("users", vec![Cell::Int(100), Cell::Int(150), Cell::Int(200), Cell::Int(250)]),
        column("channel", vec![text("organic"), text("direct"), text("organic"), text("direct")]),
        column("value", vec![Cell::Int(10), Cell::Int(20), Cell::Int(15), Cell::Int(25)]),
    ])
    .unwrap()
}

fn column_of(frame: &Frame, name: &str) -> Vec<Cell> {
    let c = frame.find_column(&name.to_string()).unwrap();
    (0..frame.height()).map(|r| frame.cell(c, r).clone()).collect()
}

fn no_steps() -> TransformConfig {
    TransformConfig { filter: None, derive: None, group_by: None, agg: None, sort: None, limit: None }
}

#[test]
fn test_apply_transforms_basic() {
    let frame = create_test_frame();
    let config = TransformConfig { limit: Some(2), ..no_steps() };

    let result = apply_transforms(frame, &config);
    assert!(result.is_ok());

    let df = result.unwrap();
    assert_eq!(df.height(), 2);
}

#[test]
fn test_apply_filters_include_single() {
    let frame = create_test_frame();
    let includes = vec![("channel".to_string(), FilterValue::Single("organic".to_string()))];

    let filter = FilterConfig { includes: Some(includes), exclude: None, expression: None };

    let result = apply_filters(&frame, &filter);
    assert!(result.is_ok());

    let df = result.unwrap();
    assert_eq!(df.height(), 2); // Should have 2 organic rows
}

#[test]
fn test_apply_filters_include_multiple() {
    let frame = create_test_frame();
    let includes = vec![(
        "channel".to_string(),
        FilterValue::Multiple(vec!["organic".to_string(), "direct".to_string()]),
    )];

    let filter = FilterConfig { includes: Some(includes), exclude: None, expression: None };

    let result = apply_filters(&frame, &filter);
    assert!(result.is_ok());

    let df = result.unwrap();
    assert_eq!(df.height(), 4); // Should have all rows
}

#[test]
fn test_apply_filters_exclude_single() {
    let frame = create_test_frame();
    let excludes = vec![("channel".to_string(), FilterValue::Single("organic".to_string()))];

    let filter = FilterConfig { includes: None, exclude: Some(excludes), expression: None };

    let result = apply_filters(&frame, &filter);
    assert!(result.is_ok());

    let df = result.unwrap();
    assert_eq!(df.height(), 2); // Should have 2 direct rows
}

#[test]
fn test_apply_grouping_sum() {
    let frame = create_test_frame();
    let result = apply_grouping(&frame, &"channel".to_string(), &AggregationType::Sum);
    assert!(result.is_ok());

    let df = result.unwrap();
    assert_eq!(df.height(), 2); // Should have 2 groups (organic, direct)

    let columns = df.column_names();
    assert!(columns.contains(&"channel".to_string()));
    assert_eq!(columns.len(), 4); // channel + 3 other columns
}

#[test]
fn test_apply_grouping_count() {
    let frame = create_test_frame();
    let result = apply_grouping(&frame, &"channel".to_string(), &AggregationType::Count);
    assert!(result.is_ok());

    let df = result.unwrap();
    assert_eq!(df.height(), 2); // Should have 2 groups

    let columns = df.column_names();
    assert!(columns.contains(&"channel".to_string()));
    assert_eq!(columns.len(), 4); // channel + 3 other columns
}

#[test]
fn test_apply_grouping_mean() {
    let frame = create_test_frame();
    let result = apply_grouping(&frame, &"channel".to_string(), &AggregationType::Mean);
    assert!(result.is_ok());

    let df = result.unwrap();
    assert_eq!(df.height(), 2);

    let columns = df.column_names();
    assert_eq!(columns.len(), 4); // channel + 3 other columns
}

#[test]
fn test_apply_sorting_ascending() {
    let frame = create_test_frame();
    let sort_configs = vec![SortConfig { column: "users".to_string(), ascending: Some(true) }];

    let result = apply_sorting(&frame, &sort_configs);
    assert!(result.is_ok());

    let df = result.unwrap();
    let users = column_of(&df, "users");
    let first_value = users.first().unwrap();
    let last_value = users.last().unwrap();

    // In our test data, 100 should be first and 250 should be last
    assert_eq!(first_value, &Cell::Int(100));
    assert_eq!(last_value, &Cell::Int(250));
}

#[test]
fn test_apply_sorting_descending() {
    let frame = create_test_frame();
    let sort_configs = vec![SortConfig { column: "users".to_string(), ascending: Some(false) }];

    let result = apply_sorting(&frame, &sort_configs);
    assert!(result.is_ok());

    let df = result.unwrap();
    let users = column_of(&df, "users");
    let first_value = users.first().unwrap();
    let last_value = users.last().unwrap();

    // In our test data, 250 should be first and 100 should be last
    assert_eq!(first_value, &Cell::Int(250));
    assert_eq!(last_value, &Cell::Int(100));
}

#[test]
fn test_apply_sorting_multiple_columns() {
    let frame = create_test_frame();
    let sort_configs = vec![
        SortConfig { column: "channel".to_string(), ascending: Some(true) },
        SortConfig { column: "users".to_string(), ascending: Some(false) },
    ];

    let result = apply_sorting(&frame, &sort_configs);
    assert!(result.is_ok());

    let df = result.unwrap();
    // Should be sorted by channel first (ascending), then users (descending)
    assert_eq!(df.height(), 4);
}

#[test]
fn test_apply_transforms_complete_workflow() {
    let frame = create_test_frame();

    // Create a filter to include only organic channel
    let includes = vec![("channel".to_string(), FilterValue::Single("organic".to_string()))];
    let filter = FilterConfig { includes: Some(includes), exclude: None, expression: None };

    // Create sort config
    let sort_configs = vec![SortConfig { column: "users".to_string(), ascending: Some(false) }];

    let config = TransformConfig {
        filter: Some(filter),
        derive: None,
        group_by: Some("date".to_string()),
        agg: Some(AggregationType::Sum),
        sort: Some(sort_configs),
        limit: Some(1),
    };

    let result = apply_transforms(frame, &config);
    assert!(result.is_ok());

    let df = result.unwrap();
    // Should have filtered to organic, grouped by date, summed, sorted, and limited
    assert!(df.height() <= 1);
}

#[test]
fn test_apply_transforms_with_expression_filter() {
    let frame = create_test_frame();
    let filter =
        FilterConfig { includes: None, exclude: None, expression: Some("users > 150".to_string()) };

    let config = TransformConfig { filter: Some(filter), ..no_steps() };

    let result = apply_transforms(frame, &config);
    // Should handle expression filter gracefully (even though not implemented)
    assert!(result.is_ok());
}

#[test]
fn an_expression_keeps_every_row_and_is_reported_as_ignored() {
    let frame = create_test_frame();
    let filter =
        FilterConfig { includes: None, exclude: None, expression: Some("users > 150".to_string()) };
    let kept = apply_filters(&frame, &filter).unwrap();
    assert_eq!(column_of(&kept, "users"), column_of(&frame, "users"));
    assert_eq!(ignored_expression(&filter), Some(&"users > 150".to_string()));
    let plain = FilterConfig { includes: None, exclude: None, expression: None };
    assert_eq!(ignored_expression(&plain), None);
}

fn letters() -> Frame {
    Frame::new(vec![
        column("c", vec![text("A"), text("B"), text("C"), text("A"), text("D"), text("B")]),
        column("n", (0..6).map(Cell::Int).collect()),
    ])
    .unwrap()
}

#[test]
fn include_with_two_values_keeps_the_union() {
    let filter = FilterConfig {
        includes: Some(vec![(
            "c".to_string(),
            FilterValue::Multiple(vec!["A".to_string(), "B".to_string()]),
        )]),
        exclude: None,
        expression: None,
    };
    let kept = apply_filters(&letters(), &filter).unwrap();
    assert_eq!(column_of(&kept, "c"), vec![text("A"), text("B"), text("A"), text("B")]);
    assert_eq!(
        column_of(&kept, "n"),
        vec![Cell::Int(0), Cell::Int(1), Cell::Int(3), Cell::Int(5)]
    );
}

#[test]
fn exclude_with_two_values_keeps_what_is_neither() {
    let filter = FilterConfig {
        includes: None,
        exclude: Some(vec![(
            "c".to_string(),
            FilterValue::Multiple(vec!["A".to_string(), "B".to_string()]),
        )]),
        expression: None,
    };
    let kept = apply_filters(&letters(), &filter).unwrap();
    assert_eq!(column_of(&kept, "c"), vec![text("C"), text("D")]);
    assert_eq!(column_of(&kept, "n"), vec![Cell::Int(2), Cell::Int(4)]);
}

#[test]
fn entries_on_several_columns_must_all_hold() {
    let filter = FilterConfig {
        includes: Some(vec![
            ("channel".to_string(), FilterValue::Single("direct".to_string())),
            ("users".to_string(), FilterValue::Multiple(vec!["100".to_string(), "250".to_string()])),
        ]),
        exclude: Some(vec![("value".to_string(), FilterValue::Single("20".to_string()))]),
        expression: None,
    };
    let kept = apply_filters(&create_test_frame(), &filter).unwrap();
    // Numbers are compared by their decimal text.
    assert_eq!(column_of(&kept, "users"), vec![Cell::Int(250)]);
}

#[test]
fn an_empty_list_of_values_matches_no_row() {
    let keep = FilterConfig {
        includes: Some(vec![("c".to_string(), FilterValue::Multiple(vec![]))]),
        exclude: None,
        expression: None,
    };
    assert_eq!(apply_filters(&letters(), &keep).unwrap().height(), 0);
    let drop = FilterConfig {
        includes: None,
        exclude: Some(vec![("c".to_string(), FilterValue::Multiple(vec![]))]),
        expression: None,
    };
    assert_eq!(apply_filters(&letters(), &drop).unwrap().height(), 6);
}

#[test]
fn a_missing_column_fails_every_step_with_the_columns_of_the_table() {
    let frame = create_test_frame();
    let expected = TransformError::ColumnNotFound {
        column: "nowhere".to_string(),
        available: vec![
            "date".to_string(),
            "users".to_string(),
            "channel".to_string(),
            "value".to_string(),
        ],
    };
    let filter = FilterConfig {
        includes: Some(vec![("nowhere".to_string(), FilterValue::Single("x".to_string()))]),
        exclude: None,
        expression: None,
    };
    assert_eq!(apply_filters(&frame, &filter).unwrap_err(), expected);
    let sort = vec![SortConfig { column: "nowhere".to_string(), ascending: None }];
    assert_eq!(apply_sorting(&frame, &sort).unwrap_err(), expected);
    assert_eq!(
        apply_grouping(&frame, &"nowhere".to_string(), &AggregationType::Sum).unwrap_err(),
        expected
    );
    assert_eq!(
        expected.message(),
        "Column 'nowhere' not found in CSV. Available columns: [\"date\", \"users\", \"channel\", \"value\"]"
    );
}

#[test]
fn the_message_lists_odd_column_names_as_they_are() {
    let error = TransformError::ColumnNotFound {
        column: "x\"y".to_string(),
        available: vec!["a b".to_string(), "q\\r".to_string(), "é".to_string()],
    };
    let message = error.message();
    assert!(message.contains("x\"y"));
    assert!(message.contains("a b") && message.contains("q\\r") && message.contains("é"));
    let none = TransformError::ColumnNotFound { column: "x".to_string(), available: vec![] };
    assert_eq!(none.message(), "Column 'x' not found in CSV. Available columns: []");
}

#[test]
fn sorting_is_lexicographic_over_the_keys_and_stable() {
    let frame = create_test_frame();
    let sort = vec![
        SortConfig { column: "channel".to_string(), ascending: Some(true) },
        SortConfig { column: "users".to_string(), ascending: Some(false) },
    ];
    let sorted = apply_sorting(&frame, &sort).unwrap();
    assert_eq!(
        column_of(&sorted, "channel"),
        vec![text("direct"), text("direct"), text("organic"), text("organic")]
    );
    assert_eq!(
        column_of(&sorted, "users"),
        vec![Cell::Int(250), Cell::Int(150), Cell::Int(200), Cell::Int(100)]
    );
    // Rows of one key keep their order.
    let by_date = vec![SortConfig { column: "date".to_string(), ascending: None }];
    let sorted = apply_sorting(&frame, &by_date).unwrap();
    assert_eq!(
        column_of(&sorted, "users"),
        vec![Cell::Int(100), Cell::Int(200), Cell::Int(150), Cell::Int(250)]
    );
    let by_date_down = vec![SortConfig { column: "date".to_string(), ascending: Some(false) }];
    let sorted = apply_sorting(&frame, &by_date_down).unwrap();
    assert_eq!(
        column_of(&sorted, "users"),
        vec![Cell::Int(150), Cell::Int(250), Cell::Int(100), Cell::Int(200)]
    );
}

#[test]
fn sorting_puts_null_first_then_numbers_then_texts() {
    let frame = Frame::new(vec![column(
        "k",
        vec![text("b"), Cell::Int(2), Cell::Null, Cell::Real(1500), text("a"), Cell::UInt(1)],
    )])
    .unwrap();
    let sort = vec![SortConfig { column: "k".to_string(), ascending: None }];
    let sorted = apply_sorting(&frame, &sort).unwrap();
    assert_eq!(
        column_of(&sorted, "k"),
        vec![Cell::Null, Cell::UInt(1), Cell::Real(1500), Cell::Int(2), text("a"), text("b")]
    );
}

#[test]
fn limit_keeps_the_first_rows() {
    let frame = create_test_frame();
    assert_eq!(column_of(&apply_limit(&frame, 3), "users").len(), 3);
    assert_eq!(
        column_of(&apply_limit(&frame, 2), "users"),
        vec![Cell::Int(100), Cell::Int(150)]
    );
    assert_eq!(apply_limit(&frame, 0).height(), 0);
    assert_eq!(apply_limit(&frame, 99).height(), 4);
}

#[test]
fn grouping_folds_every_other_column_group_by_group() {
    let frame = create_test_frame();
    let by = "channel".to_string();
    let sum = apply_grouping(&frame, &by, &AggregationType::Sum).unwrap();
    assert_eq!(sum.column_names(), vec!["channel", "date", "users", "value"]);
    assert_eq!(column_of(&sum, "channel"), vec![text("organic"), text("direct")]);
    assert_eq!(column_of(&sum, "users"), vec![Cell::Int(300), Cell::Int(400)]);
    assert_eq!(column_of(&sum, "value"), vec![Cell::Int(25), Cell::Int(45)]);
    // A column without numbers sums to zero.
    assert_eq!(column_of(&sum, "date"), vec![Cell::Int(0), Cell::Int(0)]);

    let count = apply_grouping(&frame, &by, &AggregationType::Count).unwrap();
    assert_eq!(column_of(&count, "users"), vec![Cell::UInt(2), Cell::UInt(2)]);
    assert_eq!(column_of(&count, "date"), vec![Cell::UInt(2), Cell::UInt(2)]);

    let mean = apply_grouping(&frame, &by, &AggregationType::Mean).unwrap();
    assert_eq!(column_of(&mean, "users"), vec![Cell::Int(150), Cell::Int(200)]);
    assert_eq!(column_of(&mean, "value"), vec![Cell::Real(12500), Cell::Real(22500)]);
    assert_eq!(column_of(&mean, "date"), vec![Cell::Null, Cell::Null]);

    let min = apply_grouping(&frame, &by, &AggregationType::Min).unwrap();
    assert_eq!(column_of(&min, "users"), vec![Cell::Int(100), Cell::Int(150)]);
    let max = apply_grouping(&frame, &by, &AggregationType::Max).unwrap();
    assert_eq!(column_of(&max, "users"), vec![Cell::Int(200), Cell::Int(250)]);
}

#[test]
fn median_is_the_middle_or_the_mean_of_the_two_middles() {
    let frame = Frame::new(vec![
        column("g", vec![text("a"), text("a"), text("a"), text("b"), text("b"), text("c")]),
        column(
            "v",
            vec![
                Cell::Int(9),
                Cell::Int(1),
                Cell::Int(5),
                Cell::Int(4),
                Cell::Int(1),
                text("none"),
            ],
        ),
    ])
    .unwrap();
    let median = apply_grouping(&frame, &"g".to_string(), &AggregationType::Median).unwrap();
    assert_eq!(column_of(&median, "g"), vec![text("a"), text("b"), text("c")]);
    assert_eq!(column_of(&median, "v"), vec![Cell::Int(5), Cell::Real(2500), Cell::Null]);
}

#[test]
fn the_pipeline_runs_in_its_fixed_order() {
    // Filter first: the limit counts filtered rows. Sort before limit: the
    // largest row is the one kept.
    let config = TransformConfig {
        filter: Some(FilterConfig {
            includes: None,
            exclude: Some(vec![("users".to_string(), FilterValue::Single("250".to_string()))]),
            expression: None,
        }),
        sort: Some(vec![SortConfig { column: "users".to_string(), ascending: Some(false) }]),
        limit: Some(1),
        ..no_steps()
    };
    let result = apply_transforms(create_test_frame(), &config).unwrap();
    assert_eq!(column_of(&result, "users"), vec![Cell::Int(200)]);

    // Derive before group: the derived column can be the group column.
    let config = TransformConfig {
        derive: Some(vec![(
            "pair".to_string(),
            "source_medium(channel, date)".to_string(),
        )]),
        group_by: Some("pair".to_string()),
        agg: Some(AggregationType::Sum),
        sort: Some(vec![SortConfig { column: "pair".to_string(), ascending: None }]),
        ..no_steps()
    };
    let result = apply_transforms(create_test_frame(), &config).unwrap();
    assert_eq!(
        column_of(&result, "pair"),
        vec![text("direct / 2023-01-02"), text("organic / 2023-01-01")]
    );
    assert_eq!(column_of(&result, "users"), vec![Cell::Int(400), Cell::Int(300)]);
}

#[test]
fn grouping_needs_both_a_column_and_a_fold() {
    let config = TransformConfig { group_by: Some("channel".to_string()), ..no_steps() };
    assert_eq!(apply_transforms(create_test_frame(), &config).unwrap().height(), 4);
    let config = TransformConfig { agg: Some(AggregationType::Sum), ..no_steps() };
    assert_eq!(apply_transforms(create_test_frame(), &config).unwrap().height(), 4);
}
