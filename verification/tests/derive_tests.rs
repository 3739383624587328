use graff::derive::{
    apply_derived_columns, month_cell_from, parse_derive_expression, source_medium, to_hour,
    to_month, to_week, weekday, DeriveExpr,
};
use graff::frame::{Cell, Column, Frame};
use graff::transform::TransformError;

const DAY: i64 = 86_400_000;
const HOUR: i64 = 3_600_000;

// 2023-01-01, a Sunday, counted in days from 1970-01-01.
const NEW_YEAR_2023: i32 = 19358;

fn text(s: &str) -> Cell {
    Cell::Text(s.to_string())
}

fn column(name: &str, cells: Vec<Cell>) -> Column {
    Column { name: name.to_string(), cells }
}

fn column_of(frame: &Frame, name: &str) -> Vec<Cell> {
    let c = frame.find_column(&name.to_string()).unwrap();
    (0..frame.height()).map(|r| frame.cell(c, r).clone()).collect()
}

#[test]
fn the_five_supported_forms_are_read() {
    assert_eq!(
        parse_derive_expression("to_week(date)"),
        Ok(DeriveExpr::ToWeek("date".to_string()))
    );
    assert_eq!(
        parse_derive_expression("to_month(date)"),
        Ok(DeriveExpr::ToMonth("date".to_string()))
    );
    assert_eq!(
        parse_derive_expression("to_hour(seen at)"),
        Ok(DeriveExpr::ToHour("seen at".to_string()))
    );
    assert_eq!(
        parse_derive_expression("weekday(date)"),
        Ok(DeriveExpr::Weekday("date".to_string()))
    );
    assert_eq!(
        parse_derive_expression("source_medium( source ,medium )"),
        Ok(DeriveExpr::SourceMedium("source".to_string(), "medium".to_string()))
    );
}

#[test]
fn the_column_is_what_stands_between_the_first_opening_and_the_last_closing_bracket() {
    assert_eq!(
        parse_derive_expression("to_week(f(x))"),
        Ok(DeriveExpr::ToWeek("f(x)".to_string()))
    );
    assert_eq!(parse_derive_expression("to_week()"), Ok(DeriveExpr::ToWeek("".to_string())));
    // The name of one column is taken as it stands, white space and all.
    assert_eq!(
        parse_derive_expression("to_week( date )"),
        Ok(DeriveExpr::ToWeek(" date ".to_string()))
    );
}

#[test]
fn other_forms_are_refused() {
    for expr in ["upper(name)", "to_week", "to_week(date", "TO_WEEK(date)", " to_week(date)", ""] {
        let error = parse_derive_expression(expr).unwrap_err();
        assert_eq!(error, TransformError::UnsupportedExpression { expression: expr.to_string() });
    }
    assert_eq!(
        parse_derive_expression("upper(name)").unwrap_err().message(),
        "Unsupported derive expression: upper(name)"
    );
}

#[test]
fn source_medium_takes_two_columns() {
    for inner in ["source", "a,b,c", ""] {
        let error = parse_derive_expression(&format!("source_medium({})", inner)).unwrap_err();
        assert_eq!(error, TransformError::ExpectedTwoColumns { inner: inner.to_string() });
    }
    assert_eq!(
        parse_derive_expression("source_medium(a,b,c)").unwrap_err().message(),
        "Expected two column names, got: a,b,c"
    );
}

#[test]
fn a_week_starts_on_its_monday() {
    // 2023-01-04 is a Wednesday; its week starts on 2023-01-02.
    assert_eq!(to_week(&Cell::Date(NEW_YEAR_2023 + 3)), Cell::Date(NEW_YEAR_2023 + 1));
    // A Monday starts its own week, a Sunday ends the week before.
    assert_eq!(to_week(&Cell::Date(NEW_YEAR_2023 + 1)), Cell::Date(NEW_YEAR_2023 + 1));
    assert_eq!(to_week(&Cell::Date(NEW_YEAR_2023)), Cell::Date(NEW_YEAR_2023 - 6));
    // 1970-01-01 is a Thursday.
    assert_eq!(to_week(&Cell::Date(0)), Cell::Date(-3));
    assert_eq!(to_week(&Cell::Date(-4)), Cell::Date(-10));
    let wednesday_noon = (NEW_YEAR_2023 as i64 + 3) * DAY + 12 * HOUR;
    assert_eq!(
        to_week(&Cell::Datetime(wednesday_noon)),
        Cell::Datetime((NEW_YEAR_2023 as i64 + 1) * DAY)
    );
    assert_eq!(to_week(&Cell::Datetime(-1)), Cell::Datetime(-3 * DAY));
    assert_eq!(to_week(&text("2023-01-04")), Cell::Null);
    assert_eq!(to_week(&Cell::Int(5)), Cell::Null);
    assert_eq!(to_week(&Cell::Date(i32::MIN)), Cell::Null);
}

#[test]
fn weekdays_count_from_monday() {
    assert_eq!(weekday(&Cell::Date(NEW_YEAR_2023 + 1)), Cell::Int(0));
    assert_eq!(weekday(&Cell::Date(NEW_YEAR_2023)), Cell::Int(6));
    assert_eq!(weekday(&Cell::Date(0)), Cell::Int(3));
    assert_eq!(weekday(&Cell::Date(-1)), Cell::Int(2));
    assert_eq!(weekday(&Cell::Datetime(NEW_YEAR_2023 as i64 * DAY + 23 * HOUR)), Cell::Int(6));
    assert_eq!(weekday(&Cell::Datetime(-1)), Cell::Int(2));
    assert_eq!(weekday(&Cell::Null), Cell::Null);
}

#[test]
fn hours_run_from_0_to_23() {
    let midnight = NEW_YEAR_2023 as i64 * DAY;
    assert_eq!(to_hour(&Cell::Datetime(midnight)), Cell::Int(0));
    assert_eq!(to_hour(&Cell::Datetime(midnight + 13 * HOUR + 45 * 60_000)), Cell::Int(13));
    assert_eq!(to_hour(&Cell::Datetime(midnight + 24 * HOUR - 1)), Cell::Int(23));
    assert_eq!(to_hour(&Cell::Datetime(-1)), Cell::Int(23));
    assert_eq!(to_hour(&Cell::Date(NEW_YEAR_2023)), Cell::Null);
    assert_eq!(to_hour(&text("13:45")), Cell::Null);
}

#[test]
fn a_month_starts_on_its_first_day() {
    // 2023-01-15 and 2023-01-31 are in the month that starts on 2023-01-01.
    assert_eq!(to_month(&Cell::Date(NEW_YEAR_2023 + 14)), Cell::Date(NEW_YEAR_2023));
    assert_eq!(to_month(&Cell::Date(NEW_YEAR_2023 + 30)), Cell::Date(NEW_YEAR_2023));
    assert_eq!(to_month(&Cell::Date(NEW_YEAR_2023)), Cell::Date(NEW_YEAR_2023));
    // 2023-02-01 starts the next month; 2024-02-29 is in a leap month.
    assert_eq!(to_month(&Cell::Date(NEW_YEAR_2023 + 31)), Cell::Date(NEW_YEAR_2023 + 31));
    assert_eq!(to_month(&Cell::Date(19782)), Cell::Date(19754));
    // 1969-12-31 is in the month that starts on 1969-12-01.
    assert_eq!(to_month(&Cell::Date(-1)), Cell::Date(-31));
    let mid_january = (NEW_YEAR_2023 as i64 + 14) * DAY + 7 * HOUR;
    assert_eq!(to_month(&Cell::Datetime(mid_january)), Cell::Datetime(NEW_YEAR_2023 as i64 * DAY));
    assert_eq!(to_month(&text("2023-01-15")), Cell::Null);
    assert_eq!(to_month(&Cell::Null), Cell::Null);
    // The last instant of a month and the first of the next one.
    let february = (NEW_YEAR_2023 as i64 + 31) * DAY;
    assert_eq!(to_month(&Cell::Datetime(february - 1)), Cell::Datetime(NEW_YEAR_2023 as i64 * DAY));
    assert_eq!(to_month(&Cell::Datetime(february)), Cell::Datetime(february));
    assert_eq!(to_month(&Cell::Datetime(-1)), Cell::Datetime(-31 * DAY));
    // Century years: 1900 is no leap year, 2000 is one.
    assert_eq!(to_month(&Cell::Date(-25509)), Cell::Date(-25536));
    assert_eq!(to_month(&Cell::Date(-25508)), Cell::Date(-25508));
    assert_eq!(to_month(&Cell::Date(11016)), Cell::Date(10988));
    // Dates and instants that the calendar cannot hold give null.
    assert_eq!(to_month(&Cell::Datetime(i64::MAX)), Cell::Null);
    assert_eq!(to_month(&Cell::Datetime(i64::MIN)), Cell::Null);
    assert_eq!(to_month(&Cell::Date(i32::MAX)), Cell::Null);
    assert_eq!(to_month(&Cell::Date(i32::MIN)), Cell::Null);
}

#[test]
fn the_cell_of_a_month_is_of_the_kind_of_its_source() {
    // Day 40 is the tenth of its month: the month starts on day 31.
    assert_eq!(month_cell_from(&Cell::Date(40), Some(10)), Cell::Date(31));
    assert_eq!(month_cell_from(&Cell::Date(40), Some(1)), Cell::Date(40));
    assert_eq!(month_cell_from(&Cell::Date(-1), Some(31)), Cell::Date(-31));
    assert_eq!(
        month_cell_from(&Cell::Datetime(40 * DAY + 5), Some(10)),
        Cell::Datetime(31 * DAY)
    );
    assert_eq!(month_cell_from(&Cell::Datetime(-1), Some(31)), Cell::Datetime(-31 * DAY));
    assert_eq!(month_cell_from(&Cell::Date(40), None), Cell::Null);
    assert_eq!(month_cell_from(&Cell::Datetime(40), None), Cell::Null);
    assert_eq!(month_cell_from(&Cell::Int(40), Some(10)), Cell::Null);
    // A number that is no day of a month gives null.
    assert_eq!(month_cell_from(&Cell::Date(40), Some(0)), Cell::Null);
    assert_eq!(month_cell_from(&Cell::Date(40), Some(32)), Cell::Null);
    assert_eq!(month_cell_from(&Cell::Date(40), Some(u32::MAX)), Cell::Null);
    // A first day before the earliest date or instant gives null.
    assert_eq!(month_cell_from(&Cell::Date(i32::MIN), Some(2)), Cell::Null);
    assert_eq!(month_cell_from(&Cell::Date(i32::MIN), Some(1)), Cell::Date(i32::MIN));
    assert_eq!(month_cell_from(&Cell::Datetime(i64::MIN), Some(1)), Cell::Null);
    assert_eq!(month_cell_from(&Cell::Datetime(i64::MAX), Some(1)), Cell::Null);
}

#[test]
fn source_and_medium_are_joined_by_a_slash() {
    assert_eq!(source_medium(&text("google"), &text("cpc")), text("google / cpc"));
    assert_eq!(source_medium(&text(""), &text("")), text(" / "));
    // Where one of the two is no text, the first cell is kept as it is.
    assert_eq!(source_medium(&text("google"), &Cell::Null), text("google"));
    assert_eq!(source_medium(&Cell::Int(7), &text("cpc")), Cell::Int(7));
}

fn visits() -> Frame {
    Frame::new(vec![
        column("day", vec![Cell::Date(NEW_YEAR_2023 + 3), Cell::Date(NEW_YEAR_2023 + 40)]),
        column("source", vec![text("google"), text("mail")]),
        column("medium", vec![text("cpc"), Cell::Null]),
    ])
    .unwrap()
}

#[test]
fn derived_columns_are_added_in_the_order_of_the_list() {
    let derivations = vec![
        ("week".to_string(), "to_week(day)".to_string()),
        ("month".to_string(), "to_month(day)".to_string()),
        ("weekday".to_string(), "weekday(week)".to_string()),
        ("pair".to_string(), "source_medium(source,medium)".to_string()),
    ];
    let frame = apply_derived_columns(visits(), &derivations).unwrap();
    assert_eq!(
        frame.column_names(),
        vec!["day", "source", "medium", "week", "month", "weekday", "pair"]
    );
    assert_eq!(
        column_of(&frame, "week"),
        vec![Cell::Date(NEW_YEAR_2023 + 1), Cell::Date(NEW_YEAR_2023 + 36)]
    );
    assert_eq!(
        column_of(&frame, "month"),
        vec![Cell::Date(NEW_YEAR_2023), Cell::Date(NEW_YEAR_2023 + 31)]
    );
    // A later expression reads an earlier new column.
    assert_eq!(column_of(&frame, "weekday"), vec![Cell::Int(0), Cell::Int(0)]);
    assert_eq!(column_of(&frame, "pair"), vec![text("google / cpc"), text("mail")]);
}

#[test]
fn a_derived_column_replaces_a_column_of_its_name() {
    let derivations = vec![("day".to_string(), "weekday(day)".to_string())];
    let frame = apply_derived_columns(visits(), &derivations).unwrap();
    assert_eq!(frame.column_names(), vec!["day", "source", "medium"]);
    assert_eq!(column_of(&frame, "day"), vec![Cell::Int(2), Cell::Int(4)]);
}

#[test]
fn a_faulty_derivation_fails_the_step() {
    let derivations = vec![
        ("week".to_string(), "to_week(day)".to_string()),
        ("x".to_string(), "to_week(nowhere)".to_string()),
    ];
    assert_eq!(
        apply_derived_columns(visits(), &derivations).unwrap_err(),
        TransformError::ColumnNotFound {
            column: "nowhere".to_string(),
            available: vec![
                "day".to_string(),
                "source".to_string(),
                "medium".to_string(),
                "week".to_string()
            ],
        }
    );
    let derivations = vec![("x".to_string(), "source_medium(source,nowhere)".to_string())];
    assert!(matches!(
        apply_derived_columns(visits(), &derivations).unwrap_err(),
        TransformError::ColumnNotFound { column, .. } if column == "nowhere"
    ));
    let derivations = vec![("x".to_string(), "lower(source)".to_string())];
    assert_eq!(
        apply_derived_columns(visits(), &derivations).unwrap_err(),
        TransformError::UnsupportedExpression { expression: "lower(source)".to_string() }
    );
}
