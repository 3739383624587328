//! Derived columns: the small grammar of derive expressions and what each
//! expression computes from the cells of a row.

use vstd::prelude::*;
use vstd::string::*;
use polars::prelude::{DateMethods, Int32Chunked};
use crate::frame::{Cell, cells_view, CellView, Frame, FrameView};
use crate::measure::{floor_div, floor_mod};
use crate::text::{chars_begin, chars_of, find_char, first_char, last_char, lemma_first_char, lemma_last_char, occurs_at, push_str, rfind_char, slice_of, string_of, trim_chars, trimmed};
use crate::transform::{column_not_found, TransformError, TransformFault, yields};

verus! {

/// A derive expression: the function, and the column or columns to which it
/// is applied.
#[derive(Debug, PartialEq, Eq)]
pub enum DeriveExpr {
    /// The Monday of the week of a date or an instant.
    ToWeek(String),
    /// The first day of the month of a date or an instant.
    ToMonth(String),
    /// The hour of the day of an instant, from 0 to 23.
    ToHour(String),
    /// The day of the week of a date or an instant, Monday being 0.
    Weekday(String),
    /// The texts of two columns joined as `A / B`.
    SourceMedium(String, String),
}

/// A derive expression with its column names as character sequences.
pub enum DeriveNode {
    ToWeek(Seq<char>),
    ToMonth(Seq<char>),
    ToHour(Seq<char>),
    Weekday(Seq<char>),
    SourceMedium(Seq<char>, Seq<char>),
}

impl View for DeriveExpr {
    type V = DeriveNode;

    open spec fn view(&self) -> DeriveNode {
        match *self {
            DeriveExpr::ToWeek(c) => DeriveNode::ToWeek(c@),
            DeriveExpr::ToMonth(c) => DeriveNode::ToMonth(c@),
            DeriveExpr::ToHour(c) => DeriveNode::ToHour(c@),
            DeriveExpr::Weekday(c) => DeriveNode::Weekday(c@),
            DeriveExpr::SourceMedium(a, b) => DeriveNode::SourceMedium(a@, b@),
        }
    }
}

/// What stands between the first opening bracket of an expression and its
/// last closing bracket; none where no closing bracket follows the opening
/// one.
pub open spec fn call_inner(expr: Seq<char>) -> Option<Seq<char>> {
    if first_char(expr, '(') < last_char(expr, ')') {
        Some(expr.subrange(first_char(expr, '(') + 1, last_char(expr, ')')))
    } else {
        None
    }
}

/// The two names of a text that holds exactly one comma: what stands before
/// the comma and what stands after it, each without the white space around
/// it.
pub open spec fn two_names(inner: Seq<char>) -> Option<(Seq<char>, Seq<char>)> {
    if first_char(inner, ',') < inner.len() && last_char(inner, ',') == first_char(inner, ',') {
        Some(
            (
                trimmed(inner.subrange(0, first_char(inner, ','))),
                trimmed(inner.subrange(first_char(inner, ',') + 1, inner.len() as int)),
            ),
        )
    } else {
        None
    }
}

/// The function that an expression calls: the supported name with which it
/// begins, followed by an opening bracket.
pub enum DeriveFunction {
    ToWeek,
    ToMonth,
    ToHour,
    Weekday,
    SourceMedium,
}

/// The function with whose name and opening bracket the expression begins.
pub open spec fn called(expr: Seq<char>) -> Option<DeriveFunction> {
    if occurs_at(expr, "to_week("@, 0) {
        Some(DeriveFunction::ToWeek)
    } else if occurs_at(expr, "to_month("@, 0) {
        Some(DeriveFunction::ToMonth)
    } else if occurs_at(expr, "to_hour("@, 0) {
        Some(DeriveFunction::ToHour)
    } else if occurs_at(expr, "weekday("@, 0) {
        Some(DeriveFunction::Weekday)
    } else if occurs_at(expr, "source_medium("@, 0) {
        Some(DeriveFunction::SourceMedium)
    } else {
        None
    }
}

/// What an expression says: a supported function applied to what stands
/// between its brackets. A function of one column takes that text as the
/// column's name; the function of two columns takes the two names that a
/// single comma parts. Every other text is refused.
pub open spec fn parsed(expr: Seq<char>) -> Result<DeriveNode, TransformFault> {
    if called(expr) is None || call_inner(expr) is None {
        Err(TransformFault::UnsupportedExpression { expression: expr })
    } else {
        let inner = call_inner(expr)->0;
        match called(expr)->0 {
            DeriveFunction::ToWeek => Ok(DeriveNode::ToWeek(inner)),
            DeriveFunction::ToMonth => Ok(DeriveNode::ToMonth(inner)),
            DeriveFunction::ToHour => Ok(DeriveNode::ToHour(inner)),
            DeriveFunction::Weekday => Ok(DeriveNode::Weekday(inner)),
            DeriveFunction::SourceMedium => match two_names(inner) {
                Some(names) => Ok(DeriveNode::SourceMedium(names.0, names.1)),
                None => Err(TransformFault::ExpectedTwoColumns { inner }),
            },
        }
    }
}

/// What stands between the first opening bracket and the last closing
/// bracket of an expression.
pub fn extract_column_name(expr: &Vec<char>) -> (r: Option<Vec<char>>)
    ensures
        match r {
            Some(inner) => call_inner(expr@) == Some(inner@),
            None => call_inner(expr@) is None,
        },
{
    proof {
        lemma_first_char(expr@, '(');
        lemma_last_char(expr@, ')');
    }
    let open: usize = find_char(expr, '(');
    match rfind_char(expr, ')') {
        Some(close) => if open < close {
            Some(slice_of(expr, open + 1, close))
        } else {
            None
        },
        None => None,
    }
}

/// The two column names of the inner text of an expression: the text before
/// its only comma and the text after it, each trimmed.
pub fn extract_two_column_names(inner: &Vec<char>) -> (r: Option<(Vec<char>, Vec<char>)>)
    ensures
        match r {
            Some(names) => two_names(inner@) == Some((names.0@, names.1@)),
            None => two_names(inner@) is None,
        },
{
    proof {
        lemma_first_char(inner@, ',');
        lemma_last_char(inner@, ',');
    }
    let comma: usize = find_char(inner, ',');
    if comma >= inner.len() {
        return None;
    }
    match rfind_char(inner, ',') {
        Some(last) => if last == comma {
            let first: Vec<char> = slice_of(inner, 0, comma);
            let second: Vec<char> = slice_of(inner, comma + 1, inner.len());
            Some((trim_chars(&first), trim_chars(&second)))
        } else {
            None
        },
        None => None,
    }
}

fn called_function(expr: &Vec<char>) -> (r: Option<DeriveFunction>)
    ensures
        r == called(expr@),
{
    if chars_begin(expr, "to_week(") {
        Some(DeriveFunction::ToWeek)
    } else if chars_begin(expr, "to_month(") {
        Some(DeriveFunction::ToMonth)
    } else if chars_begin(expr, "to_hour(") {
        Some(DeriveFunction::ToHour)
    } else if chars_begin(expr, "weekday(") {
        Some(DeriveFunction::Weekday)
    } else if chars_begin(expr, "source_medium(") {
        Some(DeriveFunction::SourceMedium)
    } else {
        None
    }
}

/// Reads a derive expression. The supported forms are `to_week(col)`,
/// `to_month(col)`, `to_hour(col)`, `weekday(col)` and
/// `source_medium(a, b)`; every other text is refused.
pub fn parse_derive_expression(expr: &str) -> (r: Result<DeriveExpr, TransformError>)
    ensures
        match r {
            Ok(node) => parsed(expr@) == Ok::<DeriveNode, TransformFault>(node@),
            Err(e) => parsed(expr@) == Err::<DeriveNode, TransformFault>(e@),
        },
{
    let chars: Vec<char> = chars_of(expr);
    let function: DeriveFunction = match called_function(&chars) {
        Some(f) => f,
        None => {
            return Err(TransformError::UnsupportedExpression { expression: String::from_str(expr) });
        },
    };
    let inner: Vec<char> = match extract_column_name(&chars) {
        Some(inner) => inner,
        None => {
            return Err(TransformError::UnsupportedExpression { expression: String::from_str(expr) });
        },
    };
    match function {
        DeriveFunction::ToWeek => Ok(DeriveExpr::ToWeek(string_of(&inner))),
        DeriveFunction::ToMonth => Ok(DeriveExpr::ToMonth(string_of(&inner))),
        DeriveFunction::ToHour => Ok(DeriveExpr::ToHour(string_of(&inner))),
        DeriveFunction::Weekday => Ok(DeriveExpr::Weekday(string_of(&inner))),
        DeriveFunction::SourceMedium => match extract_two_column_names(&inner) {
            Some(names) => Ok(DeriveExpr::SourceMedium(string_of(&names.0), string_of(&names.1))),
            None => Err(TransformError::ExpectedTwoColumns { inner: string_of(&inner) }),
        },
    }
}

/// The milliseconds of a day.
pub const DAY_MS: i64 = 86_400_000;

/// The milliseconds of an hour.
pub const HOUR_MS: i64 = 3_600_000;

/// The day of the week of a day counted from the first day of 1970, a
/// Thursday: Monday is 0 and Sunday is 6.
pub open spec fn weekday_of(day: int) -> int {
    (day + 3) % 7
}

/// The Monday of the week of a day.
pub open spec fn week_start(day: int) -> int {
    day - weekday_of(day)
}

/// The day of an instant.
pub open spec fn day_of(instant: int) -> int {
    instant / 86_400_000
}

/// The hour of the day of an instant.
pub open spec fn hour_of(instant: int) -> int {
    (instant / 3_600_000) % 24
}

/// The Monday of the week of a date or an instant, as a cell of the same
/// kind; null for every other cell, and where the Monday lies before the
/// first day that the kind can hold.
pub open spec fn week_cell(c: CellView) -> CellView {
    match c {
        CellView::Date(d) => if week_start(d as int) >= i32::MIN {
            CellView::Date(week_start(d as int) as i32)
        } else {
            CellView::Null
        },
        CellView::Datetime(t) => if week_start(day_of(t as int)) * 86_400_000 >= i64::MIN {
            CellView::Datetime((week_start(day_of(t as int)) * 86_400_000) as i64)
        } else {
            CellView::Null
        },
        _ => CellView::Null,
    }
}

/// The hour of the day of an instant, from 0 to 23; null for every other cell.
pub open spec fn hour_cell(c: CellView) -> CellView {
    match c {
        CellView::Datetime(t) => CellView::Int(hour_of(t as int) as i64),
        _ => CellView::Null,
    }
}

/// The day of the week of a date or an instant, Monday being 0; null for
/// every other cell.
pub open spec fn weekday_cell(c: CellView) -> CellView {
    match c {
        CellView::Date(d) => CellView::Int(weekday_of(d as int) as i64),
        CellView::Datetime(t) => CellView::Int(weekday_of(day_of(t as int)) as i64),
        _ => CellView::Null,
    }
}

/// The texts of two cells joined by a slash between spaces; the first cell
/// as it is where one of the two is not a text.
pub open spec fn source_medium_cell(a: CellView, b: CellView) -> CellView {
    match (a, b) {
        (CellView::Text(x), CellView::Text(y)) => CellView::Text(x + " / "@ + y),
        _ => a,
    }
}

/// The day of the month of the date that lies `day` days after the first
/// day of 1970, as `polars::prelude::DateMethods::day` tells it for a date
/// column that holds this one date.
pub uninterp spec fn day_of_month(day: i32) -> Option<u32>;

/// Calls `polars::prelude::DateMethods::day` on a date column that holds the
/// one date, and takes the one value out of the result. The call builds no
/// error and returns for every date: a date that the calendar cannot hold
/// gives some number that is no day of a month. What comes back depends on
/// the date alone.
#[verifier::external_body]
fn day_in_month(day: i32) -> (r: Option<u32>)
    ensures
        r == day_of_month(day),
{
    Int32Chunked::from_vec("day", vec![day]).into_date().day().get(0)
}

/// The day for which a cell asks its month: a date itself, the day of an
/// instant; none for every other cell and for an instant whose day no date
/// can hold.
pub open spec fn month_day(c: CellView) -> Option<i32> {
    match c {
        CellView::Date(d) => Some(d),
        CellView::Datetime(t) => if i32::MIN <= day_of(t as int) <= i32::MAX {
            Some(day_of(t as int) as i32)
        } else {
            None
        },
        _ => None,
    }
}

/// The first day of the month of a day that is the `n`-th of its month.
pub open spec fn first_of_month(day: int, n: int) -> int {
    day - (n - 1)
}

/// The cell for the first day of the month of a cell, given which day of its
/// month the cell's day is: for a date that first day, for an instant its
/// midnight. Null for a cell without a day, for a number that is no day of a
/// month (below 1 or above 31), and where the first day lies before the
/// earliest date or instant.
pub open spec fn month_cell_for(c: CellView, day_number: Option<u32>) -> CellView {
    if month_day(c) is Some && day_number is Some && 1 <= day_number->0 <= 31 {
        let first = first_of_month(month_day(c)->0 as int, day_number->0 as int);
        match c {
            CellView::Date(_) => if first >= i32::MIN {
                CellView::Date(first as i32)
            } else {
                CellView::Null
            },
            CellView::Datetime(_) => if first * 86_400_000 >= i64::MIN {
                CellView::Datetime((first * 86_400_000) as i64)
            } else {
                CellView::Null
            },
            _ => CellView::Null,
        }
    } else {
        CellView::Null
    }
}

/// The first day of the month of a date or an instant, as a cell of the same
/// kind; null for every other cell.
pub open spec fn month_cell(c: CellView) -> CellView {
    match month_day(c) {
        Some(day) => month_cell_for(c, day_of_month(day)),
        None => CellView::Null,
    }
}

/// The Monday of the week of a date or an instant.
pub fn to_week(cell: &Cell) -> (r: Cell)
    ensures
        r@ == week_cell(cell@),
{
    match cell {
        Cell::Date(d) => {
            let day: i128 = *d as i128;
            let monday: i128 = day - floor_mod(day + 3, 7);
            if monday >= -2147483648 {
                Cell::Date(monday as i32)
            } else {
                Cell::Null
            }
        },
        Cell::Datetime(t) => {
            let day: i128 = floor_div(*t as i128, 86_400_000);
            assert(-106_751_991_168 <= day <= 106_751_991_168) by {
                vstd::arithmetic::div_mod::lemma_fundamental_div_mod(*t as int, 86_400_000);
                vstd::arithmetic::div_mod::lemma_mod_bound(*t as int, 86_400_000);
            }
            let monday: i128 = day - floor_mod(day + 3, 7);
            let instant: i128 = monday * 86_400_000;
            if instant >= -9_223_372_036_854_775_808 {
                assert(instant <= *t) by {
                    vstd::arithmetic::div_mod::lemma_fundamental_div_mod(*t as int, 86_400_000);
                    vstd::arithmetic::div_mod::lemma_mod_bound(*t as int, 86_400_000);
                }
                Cell::Datetime(instant as i64)
            } else {
                Cell::Null
            }
        },
        _ => Cell::Null,
    }
}

/// The hour of the day of an instant.
pub fn to_hour(cell: &Cell) -> (r: Cell)
    ensures
        r@ == hour_cell(cell@),
{
    match cell {
        Cell::Datetime(t) => {
            let hours: i128 = floor_div(*t as i128, HOUR_MS as i128);
            assert(-2_562_047_788_016 <= hours <= 2_562_047_788_016) by {
                vstd::arithmetic::div_mod::lemma_fundamental_div_mod(*t as int, 3_600_000);
                vstd::arithmetic::div_mod::lemma_mod_bound(*t as int, 3_600_000);
            }
            Cell::Int(floor_mod(hours, 24) as i64)
        },
        _ => Cell::Null,
    }
}

/// The day of the week of a date or an instant, Monday being 0.
pub fn weekday(cell: &Cell) -> (r: Cell)
    ensures
        r@ == weekday_cell(cell@),
{
    match cell {
        Cell::Date(d) => Cell::Int(floor_mod(*d as i128 + 3, 7) as i64),
        Cell::Datetime(t) => {
            let day: i128 = floor_div(*t as i128, 86_400_000);
            assert(-106_751_991_168 <= day <= 106_751_991_168) by {
                vstd::arithmetic::div_mod::lemma_fundamental_div_mod(*t as int, 86_400_000);
                vstd::arithmetic::div_mod::lemma_mod_bound(*t as int, 86_400_000);
            }
            Cell::Int(floor_mod(day + 3, 7) as i64)
        },
        _ => Cell::Null,
    }
}

/// The texts of two cells joined as `A / B`, or the first cell as it is.
pub fn source_medium(a: &Cell, b: &Cell) -> (r: Cell)
    ensures
        r@ == source_medium_cell(a@, b@),
{
    match (a, b) {
        (Cell::Text(x), Cell::Text(y)) => {
            let mut out: Vec<char> = chars_of(x.as_str());
            push_str(&mut out, " / ");
            push_str(&mut out, y.as_str());
            Cell::Text(string_of(&out))
        },
        _ => a.clone(),
    }
}

fn cell_day(cell: &Cell) -> (r: Option<i32>)
    ensures
        r == month_day(cell@),
{
    match cell {
        Cell::Date(d) => Some(*d),
        Cell::Datetime(t) => {
            let day: i128 = floor_div(*t as i128, DAY_MS as i128);
            if -2147483648 <= day && day <= 2147483647 {
                Some(day as i32)
            } else {
                None
            }
        },
        _ => None,
    }
}

/// The cell for the first day of the month of a cell, given which day of its
/// month the cell's day is.
pub fn month_cell_from(cell: &Cell, day_number: Option<u32>) -> (r: Cell)
    ensures
        r@ == month_cell_for(cell@, day_number),
{
    let day: i32 = match cell_day(cell) {
        Some(day) => day,
        None => {
            return Cell::Null;
        },
    };
    let n: u32 = match day_number {
        Some(n) => n,
        None => {
            return Cell::Null;
        },
    };
    if n < 1 || n > 31 {
        return Cell::Null;
    }
    let first: i128 = (day as i128) - ((n as i128) - 1);
    match cell {
        Cell::Date(_) => if first >= -2147483648 {
            Cell::Date(first as i32)
        } else {
            Cell::Null
        },
        Cell::Datetime(t) => {
            let instant: i128 = first * (DAY_MS as i128);
            if instant >= -9_223_372_036_854_775_808 {
                assert(instant <= *t) by {
                    vstd::arithmetic::div_mod::lemma_fundamental_div_mod(*t as int, 86_400_000);
                    vstd::arithmetic::div_mod::lemma_mod_bound(*t as int, 86_400_000);
                }
                Cell::Datetime(instant as i64)
            } else {
                Cell::Null
            }
        },
        _ => Cell::Null,
    }
}

/// The first day of the month of a date or an instant.
pub fn to_month(cell: &Cell) -> (r: Cell)
    ensures
        r@ == month_cell(cell@),
{
    match cell_day(cell) {
        Some(day) => month_cell_from(cell, day_in_month(day)),
        None => Cell::Null,
    }
}

/// The columns that an expression reads, in the order in which they are
/// looked up.
pub open spec fn sources(node: DeriveNode) -> Seq<Seq<char>> {
    match node {
        DeriveNode::ToWeek(c) => seq![c],
        DeriveNode::ToMonth(c) => seq![c],
        DeriveNode::ToHour(c) => seq![c],
        DeriveNode::Weekday(c) => seq![c],
        DeriveNode::SourceMedium(a, b) => seq![a, b],
    }
}

/// The cell that an expression gives for row `r` of a table.
pub open spec fn derived_cell(table: FrameView, node: DeriveNode, r: int) -> CellView {
    match node {
        DeriveNode::ToWeek(c) => week_cell(table.column(c)[r]),
        DeriveNode::ToMonth(c) => month_cell(table.column(c)[r]),
        DeriveNode::ToHour(c) => hour_cell(table.column(c)[r]),
        DeriveNode::Weekday(c) => weekday_cell(table.column(c)[r]),
        DeriveNode::SourceMedium(a, b) => source_medium_cell(
            table.column(a)[r],
            table.column(b)[r],
        ),
    }
}

/// The column that an expression gives for a table.
pub open spec fn derived_column(table: FrameView, node: DeriveNode) -> Seq<CellView> {
    Seq::new(table.height(), |r: int| derived_cell(table, node, r))
}

/// The first column that the expression reads and the table lacks.
pub open spec fn missing_source(table: FrameView, node: DeriveNode) -> Option<Seq<char>> {
    if !table.has(sources(node)[0]) {
        Some(sources(node)[0])
    } else if sources(node).len() > 1 && !table.has(sources(node)[1]) {
        Some(sources(node)[1])
    } else {
        None
    }
}

/// The table with one derived column: the expression is read, its columns
/// are looked up, and the new column is added under the given name, in the
/// place of a column that has that name already.
pub open spec fn derive_one(table: FrameView, name: Seq<char>, expression: Seq<char>) -> Result<
    FrameView,
    TransformFault,
> {
    match parsed(expression) {
        Err(fault) => Err(fault),
        Ok(node) => match missing_source(table, node) {
            Some(column) => Err(TransformFault::ColumnNotFound { column, available: table.names }),
            None => Ok(table.with_column(name, derived_column(table, node))),
        },
    }
}

/// The table with all derived columns, added one after the other in the
/// order of the list; a later expression can read an earlier new column.
pub open spec fn derive_all(table: FrameView, derivations: Seq<(String, String)>) -> Result<
    FrameView,
    TransformFault,
>
    decreases derivations.len(),
{
    if derivations.len() == 0 {
        Ok(table)
    } else {
        match derive_one(table, derivations[0].0@, derivations[0].1@) {
            Err(fault) => Err(fault),
            Ok(next) => derive_all(next, derivations.drop_first()),
        }
    }
}

fn derive_cells(frame: &Frame, node: &DeriveExpr, first: usize, second: usize) -> (cells: Vec<Cell>)
    requires
        missing_source(frame@, node@) is None,
        first == frame@.position(sources(node@)[0]),
        first < frame@.names.len(),
        second < frame@.names.len(),
        sources(node@).len() > 1 ==> second == frame@.position(sources(node@)[1]),
    ensures
        cells_view(cells@) == derived_column(frame@, node@),
        cells@.len() == frame@.height(),
{
    let height: usize = frame.height();
    let mut cells: Vec<Cell> = Vec::new();
    let mut r: usize = 0;
    while r < height
        invariant
            height == frame@.height(),
            r <= height,
            first == frame@.position(sources(node@)[0]),
            first < frame@.names.len(),
            second < frame@.names.len(),
            sources(node@).len() > 1 ==> second == frame@.position(sources(node@)[1]),
            cells@.len() == r,
            forall|k: int| 0 <= k < r ==> (#[trigger] cells@[k])@ == derived_cell(frame@, node@, k),
        decreases height - r,
    {
        let cell: Cell = match node {
            DeriveExpr::ToWeek(_) => to_week(frame.cell(first, r)),
            DeriveExpr::ToMonth(_) => to_month(frame.cell(first, r)),
            DeriveExpr::ToHour(_) => to_hour(frame.cell(first, r)),
            DeriveExpr::Weekday(_) => weekday(frame.cell(first, r)),
            DeriveExpr::SourceMedium(_, _) => source_medium(
                frame.cell(first, r),
                frame.cell(second, r),
            ),
        };
        cells.push(cell);
        r += 1;
    }
    assert(cells_view(cells@) =~= derived_column(frame@, node@));
    cells
}

fn derive_column(frame: Frame, name: &String, expression: &String) -> (r: Result<
    Frame,
    TransformError,
>)
    ensures
        yields(r, derive_one(frame@, name@, expression@)),
{
    let node: DeriveExpr = match parse_derive_expression(expression.as_str()) {
        Ok(node) => node,
        Err(e) => {
            return Err(e);
        },
    };
    let (a, b): (&String, Option<&String>) = match &node {
        DeriveExpr::ToWeek(c) => (c, None),
        DeriveExpr::ToMonth(c) => (c, None),
        DeriveExpr::ToHour(c) => (c, None),
        DeriveExpr::Weekday(c) => (c, None),
        DeriveExpr::SourceMedium(a, b) => (a, Some(b)),
    };
    let first: usize = match frame.find_column(a) {
        Some(c) => c,
        None => {
            return Err(column_not_found(&frame, a));
        },
    };
    let second: usize = match b {
        Some(other) => match frame.find_column(other) {
            Some(c) => c,
            None => {
                return Err(column_not_found(&frame, other));
            },
        },
        None => first,
    };
    let cells: Vec<Cell> = derive_cells(&frame, &node, first, second);
    // Reading the width recalls that the columns are of one height.
    let w: usize = frame.width();
    Ok(frame.with_column(name.clone(), cells))
}

/// Adds the derived columns to the table, one after the other in the order
/// of the list. Each entry pairs the name of the new column with the
/// expression that computes it; the expression is applied row by row. An
/// expression of no supported form, or one that reads a column which the
/// table lacks, fails the step.
pub fn apply_derived_columns(frame: Frame, derivations: &Vec<(String, String)>) -> (r: Result<
    Frame,
    TransformError,
>)
    ensures
        yields(r, derive_all(frame@, derivations@)),
{
    let ghost start = frame@;
    let mut current: Frame = frame;
    let mut i: usize = 0;
    assert(derivations@.skip(0) =~= derivations@);
    // Reading the width recalls that the columns are of one height.
    let w: usize = current.width();
    while i < derivations.len()
        invariant
            i <= derivations.len(),
            current@.wf(),
            start == frame@,
            derive_all(start, derivations@) == derive_all(current@, derivations@.skip(i as int)),
        decreases derivations.len() - i,
    {
        assert(derivations@.skip(i as int)[0] == derivations@[i as int]);
        assert(derivations@.skip(i as int).drop_first() =~= derivations@.skip(i + 1));

        match derive_column(current, &derivations[i].0, &derivations[i].1) {
            Ok(next) => {
                current = next;
            },
            Err(e) => {
                return Err(e);
            },
        }
        i += 1;
    }
    Ok(current)
}

} // verus!
