//! The pipeline that reshapes a table before it is drawn: filter, derive,
//! group and aggregate, sort, limit, in this order.

use vstd::prelude::*;
use vstd::string::*;
use crate::chart_spec::{entries_of, AggregationType, FilterConfig, FilterValue, SortConfig};
use crate::aggregate::{fold, folded};
use crate::chart::{labels_of, read_labels};
use crate::derive::{apply_derived_columns, derive_all};
use crate::frame::{cells_view, extract_numeric_value, first_index, label_of, lemma_first_index, measure_of, Cell, CellView, Column, Frame, FrameView};
use crate::measure::within_limit;
use crate::sorting::{distinct_of, distinct_texts, keys_view, lemma_distinct_of, position_of_text, sorted_order, stable_order_of, texts_view, KeyPart, KeyPartView};
use crate::text::{chars_eq, chars_of};
use crate::sorting::{strings_view};
use crate::text::{contains_text, lemma_contains_middle, lemma_contains_within, lemma_list_holds_names, list_text, push_list, push_str, string_of};

verus! {

/// Why the pipeline fails.
#[derive(Debug, PartialEq, Eq)]
pub enum TransformError {
    /// A step names a column that the table does not have at that step.
    ColumnNotFound { column: String, available: Vec<String> },
    /// A derive expression is of no supported form.
    UnsupportedExpression { expression: String },
    /// A derive expression of two columns does not name two.
    ExpectedTwoColumns { inner: String },
}

/// A failure of the pipeline, with its texts as character sequences.
pub enum TransformFault {
    ColumnNotFound { column: Seq<char>, available: Seq<Seq<char>> },
    UnsupportedExpression { expression: Seq<char> },
    ExpectedTwoColumns { inner: Seq<char> },
}

impl View for TransformError {
    type V = TransformFault;

    open spec fn view(&self) -> TransformFault {
        match *self {
            TransformError::ColumnNotFound { column, available } => TransformFault::ColumnNotFound {
                column: column@,
                available: strings_view(available@),
            },
            TransformError::UnsupportedExpression { expression } =>
                TransformFault::UnsupportedExpression { expression: expression@ },
            TransformError::ExpectedTwoColumns { inner } => TransformFault::ExpectedTwoColumns {
                inner: inner@,
            },
        }
    }
}

/// The message for a column that a table lacks: it names the column and
/// lists the columns that the table has.
pub open spec fn column_not_found_text(column: Seq<char>, available: Seq<Seq<char>>) -> Seq<char> {
    "Column '"@ + column + "' not found in CSV. Available columns: "@ + list_text(available)
}

impl TransformFault {
    /// The message that reports the failure.
    pub open spec fn text(self) -> Seq<char> {
        match self {
            TransformFault::ColumnNotFound { column, available } => column_not_found_text(
                column,
                available,
            ),
            TransformFault::UnsupportedExpression { expression } =>
                "Unsupported derive expression: "@ + expression,
            TransformFault::ExpectedTwoColumns { inner } => "Expected two column names, got: "@
                + inner,
        }
    }
}

/// The message for a missing column holds the name of the missing column and
/// the name of every column that the table has, each as it is.
pub proof fn law_message_lists_columns(column: Seq<char>, available: Seq<Seq<char>>)
    ensures
        contains_text(column_not_found_text(column, available), column),
        forall|i: int|
            0 <= i < available.len() ==> contains_text(
                column_not_found_text(column, available),
                #[trigger] available[i],
            ),
{
    let head = "Column '"@;
    let middle = "' not found in CSV. Available columns: "@;
    let text = column_not_found_text(column, available);
    lemma_contains_middle(head, column, middle + list_text(available));
    assert(head + column + (middle + list_text(available)) =~= text);
    assert forall|i: int| 0 <= i < available.len() implies contains_text(
        text,
        #[trigger] available[i],
    ) by {
        lemma_list_holds_names(available, i);
        lemma_contains_within(head + column + middle, list_text(available), Seq::empty(), available[i]);
        assert(head + column + middle + list_text(available) + Seq::<char>::empty() =~= text);
    }
}

impl TransformError {
    /// The message that reports the failure.
    pub fn message(&self) -> (s: String)
        ensures
            s@ == self@.text(),
    {
        let mut out: Vec<char> = Vec::new();
        match self {
            TransformError::ColumnNotFound { column, available } => {
                push_str(&mut out, "Column '");
                push_str(&mut out, column.as_str());
                push_str(&mut out, "' not found in CSV. Available columns: ");
                push_list(&mut out, available);
                assert(strings_view(available@) =~= Seq::new(
                    available@.len(),
                    |i: int| available@[i]@,
                ));
            },
            TransformError::UnsupportedExpression { expression } => {
                push_str(&mut out, "Unsupported derive expression: ");
                push_str(&mut out, expression.as_str());
            },
            TransformError::ExpectedTwoColumns { inner } => {
                push_str(&mut out, "Expected two column names, got: ");
                push_str(&mut out, inner.as_str());
            },
        }
        assert(out@ =~= self@.text());
        string_of(&out)
    }
}

/// What a step owes: the table that the step describes, or its failure.
pub open spec fn yields(r: Result<Frame, TransformError>, expected: Result<FrameView, TransformFault>) -> bool {
    match r {
        Ok(f) => expected == Ok::<FrameView, TransformFault>(f@) && f@.wf(),
        Err(e) => expected == Err::<FrameView, TransformFault>(e@),
    }
}

/// The failure for a column that the table lacks.
pub fn column_not_found(frame: &Frame, column: &String) -> (e: TransformError)
    ensures
        e@ == (TransformFault::ColumnNotFound { column: column@, available: frame@.names }),
{
    let available: Vec<String> = frame.column_names();
    assert(strings_view(available@) =~= frame@.names);
    TransformError::ColumnNotFound { column: column.clone(), available }
}

/// Whether a cell is what a filter value asks for: its label is the single
/// value, or one of the values of the list.
pub open spec fn value_matches(label: Seq<char>, value: FilterValue) -> bool {
    match value {
        FilterValue::Single(v) => label == v@,
        FilterValue::Multiple(vs) => is_any_of(label, vs@),
    }
}

/// Whether the label is one of the values.
pub open spec fn is_any_of(label: Seq<char>, values: Seq<String>) -> bool {
    exists|j: int| 0 <= j < values.len() && label == (#[trigger] values[j])@
}

/// Whether row `r` meets every entry (`wanted`), or no entry (not `wanted`).
pub open spec fn entries_hold(
    table: FrameView,
    entries: Seq<(String, FilterValue)>,
    r: int,
    wanted: bool,
) -> bool {
    forall|e: int|
        0 <= e < entries.len() ==> value_matches(
            label_of(table.column((#[trigger] entries[e]).0@)[r]),
            entries[e].1,
        ) == wanted
}

/// Whether the filter keeps row `r`: the row meets every include entry and
/// no exclude entry. The expression of the filter is not evaluated.
pub open spec fn row_kept(table: FrameView, filter: &FilterConfig, r: int) -> bool {
    entries_hold(table, entries_of(filter.includes), r, true) && entries_hold(
        table,
        entries_of(filter.exclude),
        r,
        false,
    )
}

/// The rows among the first `n` that the filter keeps, in their order.
pub open spec fn kept_rows(table: FrameView, filter: &FilterConfig, n: nat) -> Seq<usize>
    decreases n,
{
    if n == 0 {
        Seq::empty()
    } else if row_kept(table, filter, n - 1) {
        kept_rows(table, filter, (n - 1) as nat).push((n - 1) as usize)
    } else {
        kept_rows(table, filter, (n - 1) as nat)
    }
}

/// The column of the first entry that names a column which the table lacks.
pub open spec fn first_missing(table: FrameView, entries: Seq<(String, FilterValue)>) -> Option<
    Seq<char>,
>
    decreases entries.len(),
{
    if entries.len() == 0 {
        None
    } else if !table.has(entries[0].0@) {
        Some(entries[0].0@)
    } else {
        first_missing(table, entries.drop_first())
    }
}

/// The first column that the filter names and the table lacks: the include
/// entries are looked at first.
pub open spec fn filter_missing(table: FrameView, filter: &FilterConfig) -> Option<Seq<char>> {
    if first_missing(table, entries_of(filter.includes)) is Some {
        first_missing(table, entries_of(filter.includes))
    } else {
        first_missing(table, entries_of(filter.exclude))
    }
}

/// The filtered table: the rows that the filter keeps, in their order; or
/// the failure for the first column that the filter names and the table
/// lacks.
pub open spec fn filtered(table: FrameView, filter: &FilterConfig) -> Result<
    FrameView,
    TransformFault,
> {
    match filter_missing(table, filter) {
        Some(column) => Err(TransformFault::ColumnNotFound { column, available: table.names }),
        None => Ok(table.select(kept_rows(table, filter, table.height()))),
    }
}

/// The rows that a filter keeps are exactly the rows that meet it, in rising
/// order.
pub proof fn law_kept_rows(table: FrameView, filter: &FilterConfig, n: nat)
    requires
        n <= usize::MAX,
    ensures
        forall|r: usize|
            kept_rows(table, filter, n).contains(r) <==> r < n && row_kept(table, filter, r as int),
        forall|i: int, j: int|
            0 <= i < j < kept_rows(table, filter, n).len() ==> kept_rows(table, filter, n)[i]
                < kept_rows(table, filter, n)[j],
        forall|i: int|
            0 <= i < kept_rows(table, filter, n).len() ==> (#[trigger] kept_rows(
                table,
                filter,
                n,
            )[i]) < n,
    decreases n,
{
    if n > 0 {
        law_kept_rows(table, filter, (n - 1) as nat);
        let less = kept_rows(table, filter, (n - 1) as nat);
        let all = kept_rows(table, filter, n);
        assert forall|i: int| 0 <= i < all.len() implies (#[trigger] all[i]) < n by {
            if i < less.len() {
                assert(all[i] == less[i]);
            }
        }
        assert forall|i: int, j: int| 0 <= i < j < all.len() implies all[i] < all[j] by {
            assert(all[i] == less[i]);
            if j < less.len() {
                assert(all[j] == less[j]);
            }
        }
        assert forall|r: usize| all.contains(r) <==> r < n && row_kept(table, filter, r as int) by {
            if all.contains(r) {
                let at = choose|at: int| 0 <= at < all.len() && all[at] == r;
                if at < less.len() {
                    assert(less[at] == r);
                    assert(less.contains(r));
                }
            }
            if r < n && row_kept(table, filter, r as int) {
                if r == n - 1 {
                    assert(all[less.len() as int] == r);
                } else {
                    assert(less.contains(r));
                    let at = choose|at: int| 0 <= at < less.len() && less[at] == r;
                    assert(all[at] == r);
                }
            }
        }
    }
}

/// An include entry with several values keeps the rows whose cell is any of
/// the values; an exclude entry with several values keeps the rows whose
/// cell is none of them. For two values: the include entry keeps a row
/// exactly when its cell is the first or is the second, the exclude entry
/// exactly when it is neither.
pub proof fn law_filter_union_and_exclusion(
    table: FrameView,
    column: String,
    values: Vec<String>,
    r: int,
)
    requires
        values@.len() == 2,
    ensures
        ({
            let cell = label_of(table.column(column@)[r]);
            let entries = seq![(column, FilterValue::Multiple(values))];
            &&& entries_hold(table, entries, r, true) <==> (cell == values@[0]@ || cell
                == values@[1]@)
            &&& entries_hold(table, entries, r, false) <==> (cell != values@[0]@ && cell
                != values@[1]@)
        }),
{
    let cell = label_of(table.column(column@)[r]);
    let value = FilterValue::Multiple(values);
    let entries = seq![(column, value)];
    assert(entries[0] == (column, value));
    if cell == values@[0]@ {
        assert(cell == (#[trigger] values@[0])@);
    }
    if cell == values@[1]@ {
        assert(cell == (#[trigger] values@[1])@);
    }
    assert(value_matches(cell, value) <==> (cell == values@[0]@ || cell == values@[1]@));
    assert(entries_hold(table, entries, r, true) == value_matches(cell, value));
    assert(entries_hold(table, entries, r, false) == !value_matches(cell, value));
}

fn any_equal(label: &String, values: &Vec<String>) -> (b: bool)
    ensures
        b == is_any_of(label@, values@),
{
    let mut j: usize = 0;
    while j < values.len()
        invariant
            j <= values.len(),
            forall|k: int| 0 <= k < j ==> label@ != (#[trigger] values@[k])@,
        decreases values.len() - j,
    {
        if *label == values[j] {
            assert(label@ == (#[trigger] values@[j as int])@);
            return true;
        }
        j += 1;
    }
    false
}

fn cell_matches(cell: &Cell, value: &FilterValue) -> (b: bool)
    ensures
        b == value_matches(label_of(cell@), *value),
{
    let label: String = cell.label();
    match value {
        FilterValue::Single(v) => label == *v,
        FilterValue::Multiple(vs) => any_equal(&label, vs),
    }
}

fn resolve_entries(frame: &Frame, entries: &Vec<(String, FilterValue)>) -> (r: Result<
    Vec<usize>,
    TransformError,
>)
    ensures
        match r {
            Ok(columns) => {
                &&& first_missing(frame@, entries@) is None
                &&& columns@.len() == entries@.len()
                &&& forall|e: int|
                    0 <= e < entries@.len() ==> (#[trigger] columns@[e]) == frame@.position(
                        entries@[e].0@,
                    ) && columns@[e] < frame@.names.len()
            },
            Err(e) => first_missing(frame@, entries@) is Some && e@ == (
            TransformFault::ColumnNotFound {
                column: first_missing(frame@, entries@)->0,
                available: frame@.names,
            }),
        },
{
    let mut columns: Vec<usize> = Vec::new();
    let mut e: usize = 0;
    assert(entries@.skip(0) =~= entries@);
    while e < entries.len()
        invariant
            e <= entries.len(),
            columns@.len() == e,
            first_missing(frame@, entries@) == first_missing(frame@, entries@.skip(e as int)),
            forall|k: int|
                0 <= k < e ==> (#[trigger] columns@[k]) == frame@.position(entries@[k].0@)
                    && columns@[k] < frame@.names.len(),
        decreases entries.len() - e,
    {
        assert(entries@.skip(e as int)[0] == entries@[e as int]);
        match frame.find_column(&entries[e].0) {
            Some(c) => {
                columns.push(c);
            },
            None => {
                return Err(column_not_found(frame, &entries[e].0));
            },
        }
        assert(entries@.skip(e as int).drop_first() =~= entries@.skip(e + 1));
        e += 1;
    }
    Ok(columns)
}

fn row_holds(
    frame: &Frame,
    entries: &Vec<(String, FilterValue)>,
    columns: &Vec<usize>,
    r: usize,
    wanted: bool,
) -> (b: bool)
    requires
        r < frame@.height(),
        columns@.len() == entries@.len(),
        forall|e: int|
            0 <= e < entries@.len() ==> (#[trigger] columns@[e]) == frame@.position(entries@[e].0@)
                && columns@[e] < frame@.names.len(),
    ensures
        b == entries_hold(frame@, entries@, r as int, wanted),
{
    let mut e: usize = 0;
    while e < entries.len()
        invariant
            r < frame@.height(),
            e <= entries.len(),
            columns@.len() == entries@.len(),
            forall|k: int|
                0 <= k < entries@.len() ==> (#[trigger] columns@[k]) == frame@.position(
                    entries@[k].0@,
                ) && columns@[k] < frame@.names.len(),
            forall|k: int|
                0 <= k < e ==> value_matches(
                    label_of(frame@.column((#[trigger] entries@[k]).0@)[r as int]),
                    entries@[k].1,
                ) == wanted,
        decreases entries.len() - e,
    {
        let c: usize = columns[e];
        if cell_matches(frame.cell(c, r), &entries[e].1) != wanted {
            return false;
        }
        e += 1;
    }
    true
}

/// Keeps the rows that meet the filter. A row is kept when, for every include
/// entry, its cell in the entry's column is the entry's value or one of the
/// entry's values, and for every exclude entry, its cell is not the value
/// and none of the values. A cell is compared by its label. The expression
/// of the filter is accepted and not evaluated. A column that the table
/// lacks fails the step.
pub fn apply_filters(frame: &Frame, filter: &FilterConfig) -> (r: Result<Frame, TransformError>)
    ensures
        yields(r, filtered(frame@, filter)),
{
    let none: Vec<(String, FilterValue)> = Vec::new();
    let includes: &Vec<(String, FilterValue)> = match &filter.includes {
        Some(entries) => entries,
        None => &none,
    };
    let excludes: &Vec<(String, FilterValue)> = match &filter.exclude {
        Some(entries) => entries,
        None => &none,
    };
    assert(includes@ =~= entries_of(filter.includes));
    assert(excludes@ =~= entries_of(filter.exclude));
    let include_columns: Vec<usize> = match resolve_entries(frame, includes) {
        Ok(columns) => columns,
        Err(e) => {
            return Err(e);
        },
    };
    let exclude_columns: Vec<usize> = match resolve_entries(frame, excludes) {
        Ok(columns) => columns,
        Err(e) => {
            return Err(e);
        },
    };
    let height: usize = frame.height();
    let mut rows: Vec<usize> = Vec::new();
    let mut r: usize = 0;
    while r < height
        invariant
            height == frame@.height(),
            r <= height,
            includes@ == entries_of(filter.includes),
            excludes@ == entries_of(filter.exclude),
            include_columns@.len() == includes@.len(),
            exclude_columns@.len() == excludes@.len(),
            forall|e: int|
                0 <= e < includes@.len() ==> (#[trigger] include_columns@[e]) == frame@.position(
                    includes@[e].0@,
                ) && include_columns@[e] < frame@.names.len(),
            forall|e: int|
                0 <= e < excludes@.len() ==> (#[trigger] exclude_columns@[e]) == frame@.position(
                    excludes@[e].0@,
                ) && exclude_columns@[e] < frame@.names.len(),
            rows@ == kept_rows(frame@, filter, r as nat),
            forall|i: int| 0 <= i < rows@.len() ==> (#[trigger] rows@[i]) < height,
        decreases height - r,
    {
        if row_holds(frame, includes, &include_columns, r, true) && row_holds(
            frame,
            excludes,
            &exclude_columns,
            r,
            false,
        ) {
            rows.push(r);
        }
        r += 1;
    }
    Ok(frame.take_rows(&rows))
}

/// The expression of a filter, which no step evaluates: a caller that finds
/// one here should warn that it has no effect.
pub fn ignored_expression(filter: &FilterConfig) -> (e: Option<&String>)
    ensures
        match e {
            Some(text) => filter.expression is Some && text@ == filter.expression->0@,
            None => filter.expression is None,
        },
{
    match &filter.expression {
        Some(text) => Some(text),
        None => None,
    }
}



/// The sort key of a cell: nothing for a null cell, the text of a text cell,
/// and for every other cell a number: its quantity in thousandths, its day or
/// instant count, 1 for true and 0 for false.
pub open spec fn key_of(c: CellView) -> KeyPartView {
    match c {
        CellView::Null => KeyPartView::Missing,
        CellView::Boolean(b) => KeyPartView::Number(
            if b {
                1
            } else {
                0
            },
        ),
        CellView::Int(i) => KeyPartView::Number(i * 1000),
        CellView::UInt(u) => KeyPartView::Number(u * 1000),
        CellView::Real(m) => KeyPartView::Number(m as int),
        CellView::Text(s) => KeyPartView::Text(s),
        CellView::Date(d) => KeyPartView::Number(d as int),
        CellView::Datetime(t) => KeyPartView::Number(t as int),
    }
}

fn cell_key(cell: &Cell) -> (k: KeyPart)
    ensures
        k@ == key_of(cell@),
{
    match cell {
        Cell::Null => KeyPart::Missing,
        Cell::Boolean(b) => KeyPart::Number(
            if *b {
                1
            } else {
                0
            },
        ),
        Cell::Int(i) => KeyPart::Number((*i as i128) * 1000),
        Cell::UInt(u) => KeyPart::Number((*u as i128) * 1000),
        Cell::Real(m) => KeyPart::Number(*m as i128),
        Cell::Text(s) => KeyPart::Text(chars_of(s.as_str())),
        Cell::Date(d) => KeyPart::Number(*d as i128),
        Cell::Datetime(t) => KeyPart::Number(*t as i128),
    }
}

/// The column of the first sort key that names a column which the table
/// lacks.
pub open spec fn sort_missing(table: FrameView, configs: Seq<SortConfig>) -> Option<Seq<char>>
    decreases configs.len(),
{
    if configs.len() == 0 {
        None
    } else if !table.has(configs[0].column@) {
        Some(configs[0].column@)
    } else {
        sort_missing(table, configs.drop_first())
    }
}

/// Whether a sort key descends: it ascends unless declared otherwise.
pub open spec fn descends(config: SortConfig) -> bool {
    match config.ascending {
        Some(up) => !up,
        None => false,
    }
}

/// The direction of each sort key.
pub open spec fn directions(configs: Seq<SortConfig>) -> Seq<bool> {
    Seq::new(configs.len(), |j: int| descends(configs[j]))
}

/// The key of each row: one part for each sort key, made of the row's cell
/// in that key's column.
pub open spec fn sort_keys(table: FrameView, configs: Seq<SortConfig>) -> Seq<Seq<KeyPartView>> {
    Seq::new(
        table.height(),
        |r: int| Seq::new(configs.len(), |j: int| key_of(table.column(configs[j].column@)[r])),
    )
}

/// The sorted table: the rows in the stable order of their keys. The first
/// sort key decides; a later key parts the rows that all earlier keys leave
/// equal; rows that are equal in every key keep their order.
pub open spec fn sorted(table: FrameView, configs: Seq<SortConfig>) -> Result<
    FrameView,
    TransformFault,
> {
    match sort_missing(table, configs) {
        Some(column) => Err(TransformFault::ColumnNotFound { column, available: table.names }),
        None => Ok(table.select(stable_order_of(sort_keys(table, configs), directions(configs)))),
    }
}

/// Sorts the rows by the sort keys, the first key first: a stable
/// lexicographic sort. Within a key a null cell comes first, then numbers by
/// value, then texts in lexicographic order; a descending key reverses this.
/// A column that the table lacks fails the step.
pub fn apply_sorting(frame: &Frame, sort_configs: &Vec<SortConfig>) -> (r: Result<
    Frame,
    TransformError,
>)
    ensures
        yields(r, sorted(frame@, sort_configs@)),
{
    let mut columns: Vec<usize> = Vec::new();
    let mut descending: Vec<bool> = Vec::new();
    let mut j: usize = 0;
    assert(sort_configs@.skip(0) =~= sort_configs@);
    while j < sort_configs.len()
        invariant
            j <= sort_configs.len(),
            columns@.len() == j,
            descending@.len() == j,
            sort_missing(frame@, sort_configs@) == sort_missing(
                frame@,
                sort_configs@.skip(j as int),
            ),
            forall|k: int|
                0 <= k < j ==> (#[trigger] columns@[k]) == frame@.position(
                    sort_configs@[k].column@,
                ) && columns@[k] < frame@.names.len(),
            forall|k: int| 0 <= k < j ==> #[trigger] descending@[k] == descends(sort_configs@[k]),
        decreases sort_configs.len() - j,
    {
        assert(sort_configs@.skip(j as int)[0] == sort_configs@[j as int]);
        match frame.find_column(&sort_configs[j].column) {
            Some(c) => {
                columns.push(c);
            },
            None => {
                return Err(column_not_found(frame, &sort_configs[j].column));
            },
        }
        let down: bool = match sort_configs[j].ascending {
            Some(up) => !up,
            None => false,
        };
        descending.push(down);
        assert(sort_configs@.skip(j as int).drop_first() =~= sort_configs@.skip(j + 1));
        j += 1;
    }
    assert(descending@ =~= directions(sort_configs@));
    let height: usize = frame.height();
    let mut keys: Vec<Vec<KeyPart>> = Vec::new();
    let mut r: usize = 0;
    while r < height
        invariant
            height == frame@.height(),
            r <= height,
            keys@.len() == r,
            columns@.len() == sort_configs@.len(),
            descending@.len() == sort_configs@.len(),
            forall|k: int|
                0 <= k < columns@.len() ==> (#[trigger] columns@[k]) == frame@.position(
                    sort_configs@[k].column@,
                ) && columns@[k] < frame@.names.len(),
            forall|i: int|
                0 <= i < r ==> (#[trigger] keys@[i])@.len() == sort_configs@.len() && forall|k: int|
                    0 <= k < sort_configs@.len() ==> (#[trigger] keys@[i]@[k])@ == key_of(
                        frame@.column(sort_configs@[k].column@)[i],
                    ),
        decreases height - r,
    {
        let mut key: Vec<KeyPart> = Vec::new();
        let mut k: usize = 0;
        while k < columns.len()
            invariant
                r < frame@.height(),
                k <= columns.len(),
                key@.len() == k,
                columns@.len() == sort_configs@.len(),
                forall|m: int|
                    0 <= m < columns@.len() ==> (#[trigger] columns@[m]) == frame@.position(
                        sort_configs@[m].column@,
                    ) && columns@[m] < frame@.names.len(),
                forall|m: int|
                    0 <= m < k ==> (#[trigger] key@[m])@ == key_of(
                        frame@.column(sort_configs@[m].column@)[r as int],
                    ),
            decreases columns.len() - k,
        {
            key.push(cell_key(frame.cell(columns[k], r)));
            k += 1;
        }
        keys.push(key);
        r += 1;
    }
    assert(keys_view(keys@) =~= sort_keys(frame@, sort_configs@)) by {
        assert forall|i: int| 0 <= i < keys@.len() implies keys_view(keys@)[i] =~= sort_keys(
            frame@,
            sort_configs@,
        )[i] by {
            assert(keys@[i]@.len() == sort_configs@.len());
            assert forall|k: int| 0 <= k < sort_configs@.len() implies keys_view(keys@)[i][k]
                == sort_keys(frame@, sort_configs@)[i][k] by {
                assert(keys@[i]@[k]@ == key_of(frame@.column(sort_configs@[k].column@)[i]));
            }
        }
    }
    let order: Vec<usize> = sorted_order(&keys, &descending);
    Ok(frame.take_rows(&order))
}

/// The first `n` positions.
pub open spec fn first_rows(n: nat) -> Seq<usize> {
    Seq::new(n, |i: int| i as usize)
}

/// The table cut down to its first `limit` rows.
pub open spec fn limited(table: FrameView, limit: usize) -> FrameView {
    table.select(
        first_rows(
            if limit < table.height() {
                limit as nat
            } else {
                table.height()
            },
        ),
    )
}

/// Keeps the first `limit` rows of the table, or all rows where it has
/// fewer.
pub fn apply_limit(frame: &Frame, limit: usize) -> (f: Frame)
    ensures
        f@ == limited(frame@, limit),
        f@.wf(),
{
    let height: usize = frame.height();
    let n: usize = if limit < height {
        limit
    } else {
        height
    };
    let mut rows: Vec<usize> = Vec::new();
    let mut i: usize = 0;
    while i < n
        invariant
            i <= n,
            n <= frame@.height(),
            rows@.len() == i,
            forall|k: int| 0 <= k < i ==> #[trigger] rows@[k] == k,
        decreases n - i,
    {
        rows.push(i);
        i += 1;
    }
    assert(rows@ =~= first_rows(n as nat));
    frame.take_rows(&rows)
}

/// The quantities of the numeric cells of a group among the first `n` rows
/// of a column, in row order. A row is of the group when its label in the
/// group column is the group's.
pub open spec fn group_measures(
    cells: Seq<CellView>,
    labels: Seq<Seq<char>>,
    group: Seq<char>,
    n: nat,
) -> Seq<i128>
    decreases n,
{
    if n == 0 {
        Seq::empty()
    } else if labels[n - 1] == group && measure_of(cells[n - 1]) is Some {
        group_measures(cells, labels, group, (n - 1) as nat).push(
            measure_of(cells[n - 1])->0 as i128,
        )
    } else {
        group_measures(cells, labels, group, (n - 1) as nat)
    }
}

/// The number of cells of a group among the first `n` rows of a column that
/// are not null.
pub open spec fn group_count(
    cells: Seq<CellView>,
    labels: Seq<Seq<char>>,
    group: Seq<char>,
    n: nat,
) -> nat
    decreases n,
{
    if n == 0 {
        0
    } else if labels[n - 1] == group && cells[n - 1] != CellView::Null {
        group_count(cells, labels, group, (n - 1) as nat) + 1
    } else {
        group_count(cells, labels, group, (n - 1) as nat)
    }
}

/// The column of the table that stands at place `k` of the grouped table:
/// the group column comes first, the other columns follow in their order.
pub open spec fn source_of(k: int, group: int) -> int {
    if k == 0 {
        group
    } else if k <= group {
        k - 1
    } else {
        k
    }
}

/// The cell of the grouped table for column `k` and the group `group`: the
/// group's first cell in the group column, and in every other column the
/// fold of the group's cells.
pub open spec fn grouped_cell(
    table: FrameView,
    at: int,
    agg: AggregationType,
    k: int,
    group: Seq<char>,
) -> CellView {
    let labels = labels_of(table.cells[at], table.height());
    if k == 0 {
        table.cells[at][first_index(labels, group)]
    } else {
        folded(
            agg,
            group_measures(table.cells[source_of(k, at)], labels, group, table.height()),
            group_count(table.cells[source_of(k, at)], labels, group, table.height()),
        )
    }
}

/// The grouped table: one row for each different label of the group column,
/// in the order in which the rows first show the labels; the group column
/// first, then every other column folded group by group.
pub open spec fn grouped(table: FrameView, column: Seq<char>, agg: AggregationType) -> Result<
    FrameView,
    TransformFault,
> {
    if !table.has(column) {
        Err(TransformFault::ColumnNotFound { column, available: table.names })
    } else {
        let at = table.position(column);
        let groups = distinct_of(labels_of(table.cells[at], table.height()));
        Ok(
            FrameView {
                names: Seq::new(table.names.len(), |k: int| table.names[source_of(k, at)]),
                cells: Seq::new(
                    table.names.len(),
                    |k: int|
                        Seq::new(groups.len(), |j: int| grouped_cell(table, at, agg, k, groups[j])),
                ),
            },
        )
    }
}

fn fold_group(
    frame: &Frame,
    c: usize,
    labels: &Vec<Vec<char>>,
    group: &Vec<char>,
    agg: &AggregationType,
) -> (cell: Cell)
    requires
        c < frame@.names.len(),
        labels@.len() == frame@.height(),
    ensures
        cell@ == folded(
            *agg,
            group_measures(frame@.cells[c as int], texts_view(labels@), group@, frame@.height()),
            group_count(frame@.cells[c as int], texts_view(labels@), group@, frame@.height()),
        ),
{
    let height: usize = frame.height();
    let mut measures: Vec<i128> = Vec::new();
    let mut count: usize = 0;
    let mut r: usize = 0;
    while r < height
        invariant
            c < frame@.names.len(),
            height == frame@.height(),
            labels@.len() == height,
            r <= height,
            count <= r,
            within_limit(measures@),
            measures@ == group_measures(
                frame@.cells[c as int],
                texts_view(labels@),
                group@,
                r as nat,
            ),
            count == group_count(frame@.cells[c as int], texts_view(labels@), group@, r as nat),
        decreases height - r,
    {
        assert(texts_view(labels@)[r as int] == labels@[r as int]@);
        if chars_eq(&labels[r], group) {
            let cell: &Cell = frame.cell(c, r);
            if let Some(m) = extract_numeric_value(cell) {
                measures.push(m);
            }
            match cell {
                Cell::Null => {},
                _ => {
                    count += 1;
                },
            }
        }
        r += 1;
    }
    fold(agg, &measures, count)
}

/// Groups the rows by the label of their cell in the group column and folds
/// every other column group by group. The result has one row per group, in
/// the order in which the rows first show the groups, and the group column
/// first. A group column that the table lacks fails the step.
pub fn apply_grouping(frame: &Frame, group_col: &String, agg_type: &AggregationType) -> (r: Result<
    Frame,
    TransformError,
>)
    ensures
        yields(r, grouped(frame@, group_col@, *agg_type)),
{
    let at: usize = match frame.find_column(group_col) {
        Some(c) => c,
        None => {
            return Err(column_not_found(frame, group_col));
        },
    };
    let height: usize = frame.height();
    let width: usize = frame.width();
    let labels: Vec<Vec<char>> = read_labels(frame, at, height);
    let groups: Vec<Vec<char>> = distinct_texts(&labels);
    let ghost expected = grouped(frame@, group_col@, *agg_type)->Ok_0;
    proof {
        lemma_distinct_of(texts_view(labels@));
    }
    let mut columns: Vec<Column> = Vec::new();
    let mut k: usize = 0;
    while k < width
        invariant
            width == frame@.names.len(),
            height == frame@.height(),
            frame@.wf(),
            at < width,
            at == frame@.position(group_col@),
            frame@.has(group_col@),
            labels@.len() == height,
            texts_view(labels@) == labels_of(frame@.cells[at as int], height as nat),
            texts_view(groups@) == distinct_of(texts_view(labels@)),
            forall|x: Seq<char>|
                distinct_of(texts_view(labels@)).contains(x) <==> texts_view(labels@).contains(x),
            expected == grouped(frame@, group_col@, *agg_type)->Ok_0,
            k <= width,
            columns@.len() == k,
            forall|c: int|
                0 <= c < k ==> (#[trigger] columns@[c]).name@ == expected.names[c] && cells_view(
                    columns@[c].cells@,
                ) == expected.cells[c] && columns@[c].cells@.len() == groups@.len(),
        decreases width - k,
    {
        let source: usize = if k == 0 {
            at
        } else if k <= at {
            k - 1
        } else {
            k
        };
        let mut cells: Vec<Cell> = Vec::new();
        let mut j: usize = 0;
        while j < groups.len()
            invariant
                width == frame@.names.len(),
                height == frame@.height(),
                at < width,
                k < width,
                source == source_of(k as int, at as int),
                source < width,
                labels@.len() == height,
                texts_view(labels@) == labels_of(frame@.cells[at as int], height as nat),
                texts_view(groups@) == distinct_of(texts_view(labels@)),
                forall|x: Seq<char>|
                    distinct_of(texts_view(labels@)).contains(x) <==> texts_view(labels@).contains(
                        x,
                    ),
                j <= groups.len(),
                cells@.len() == j,
                forall|i: int|
                    0 <= i < j ==> (#[trigger] cells@[i])@ == grouped_cell(
                        frame@,
                        at as int,
                        *agg_type,
                        k as int,
                        groups@[i]@,
                    ),
            decreases groups.len() - j,
        {
            assert(texts_view(groups@)[j as int] == groups@[j as int]@);
            let cell: Cell = if k == 0 {
                proof {
                    lemma_first_index(texts_view(labels@), groups@[j as int]@);
                    assert(distinct_of(texts_view(labels@)).contains(groups@[j as int]@));
                    assert(texts_view(labels@).contains(groups@[j as int]@));
                }
                match position_of_text(&labels, &groups[j]) {
                    Some(first) => {
                        assert(first == first_index(texts_view(labels@), groups@[j as int]@)) by {
                            let f = first_index(texts_view(labels@), groups@[j as int]@);
                            if f < first {
                                assert(texts_view(labels@)[f] != groups@[j as int]@);
                            }
                            if f > first {
                                assert(texts_view(labels@)[first as int] == groups@[j as int]@);
                            }
                        }
                        frame.cell(at, first).clone()
                    },
                    None => Cell::Null,
                }
            } else {
                fold_group(frame, source, &labels, &groups[j], agg_type)
            };
            cells.push(cell);
            j += 1;
        }
        assert(cells_view(cells@) =~= expected.cells[k as int]) by {
            assert forall|i: int| 0 <= i < cells@.len() implies cells_view(cells@)[i]
                == expected.cells[k as int][i] by {
                assert(texts_view(groups@)[i] == groups@[i]@);
            }
        }
        columns.push(Column { name: frame.name(source).clone(), cells });
        k += 1;
    }
    let ghost built = columns@;
    let f: Frame = Frame::from_columns(columns);
    assert(expected.names.len() == width);
    assert(expected.cells.len() == width);
    assert forall|c: int| 0 <= c < width implies f@.names[c] == expected.names[c] && f@.cells[c]
        == expected.cells[c] by {
        assert(built[c].name@ == expected.names[c]);
    }
    assert(f@.names =~= expected.names);
    assert(f@.cells =~= expected.cells);
    Ok(f)
}

/// What the pipeline is told to do. `derive` pairs the name of a new column
/// with the expression that computes it.
#[derive(Debug)]
pub struct TransformConfig {
    pub filter: Option<FilterConfig>,
    pub derive: Option<Vec<(String, String)>>,
    pub group_by: Option<String>,
    pub agg: Option<AggregationType>,
    pub sort: Option<Vec<SortConfig>>,
    pub limit: Option<usize>,
}

/// The table after the steps that follow the filter.
pub open spec fn after_filter(
    table: FrameView,
    derive: Option<Vec<(String, String)>>,
    group_by: Option<String>,
    agg: Option<AggregationType>,
    sort: Option<Vec<SortConfig>>,
    limit: Option<usize>,
) -> Result<FrameView, TransformFault> {
    let derived = match derive {
        Some(list) => derive_all(table, list@),
        None => Ok(table),
    };
    match derived {
        Err(fault) => Err(fault),
        Ok(wide) => after_derive(wide, group_by, agg, sort, limit),
    }
}

/// The table after the steps that follow the derived columns.
pub open spec fn after_derive(
    table: FrameView,
    group_by: Option<String>,
    agg: Option<AggregationType>,
    sort: Option<Vec<SortConfig>>,
    limit: Option<usize>,
) -> Result<FrameView, TransformFault> {
    let folded = if group_by is Some && agg is Some {
        grouped(table, group_by->0@, agg->0)
    } else {
        Ok(table)
    };
    match folded {
        Err(fault) => Err(fault),
        Ok(short) => after_group(short, sort, limit),
    }
}

/// The table after sorting and limiting.
pub open spec fn after_group(table: FrameView, sort: Option<Vec<SortConfig>>, limit: Option<usize>) -> Result<
    FrameView,
    TransformFault,
> {
    let ordered = match sort {
        Some(configs) => sorted(table, configs@),
        None => Ok(table),
    };
    match ordered {
        Err(fault) => Err(fault),
        Ok(rows) => match limit {
            Some(n) => Ok(limited(rows, n)),
            None => Ok(rows),
        },
    }
}

/// The table that the pipeline gives: the rows are filtered, the derived
/// columns added, the rows grouped and folded where both a group column and
/// a fold are given, then sorted, then cut to the limit. The first step that
/// fails gives the failure of the pipeline.
pub open spec fn pipeline(
    table: FrameView,
    filter: Option<FilterConfig>,
    derive: Option<Vec<(String, String)>>,
    group_by: Option<String>,
    agg: Option<AggregationType>,
    sort: Option<Vec<SortConfig>>,
    limit: Option<usize>,
) -> Result<FrameView, TransformFault> {
    let kept = match filter {
        Some(f) => filtered(table, &f),
        None => Ok(table),
    };
    match kept {
        Err(fault) => Err(fault),
        Ok(rows) => after_filter(rows, derive, group_by, agg, sort, limit),
    }
}

/// Runs the steps of the pipeline with the settings given one by one.
pub fn run_pipeline(
    frame: Frame,
    filter: &Option<FilterConfig>,
    derive: &Option<Vec<(String, String)>>,
    group_by: &Option<String>,
    agg: &Option<AggregationType>,
    sort: &Option<Vec<SortConfig>>,
    limit: Option<usize>,
) -> (r: Result<Frame, TransformError>)
    ensures
        yields(r, pipeline(frame@, *filter, *derive, *group_by, *agg, *sort, limit)),
{
    // Reading the width recalls that the columns are of one height.
    let w: usize = frame.width();
    let kept: Frame = match filter {
        Some(f) => match apply_filters(&frame, f) {
            Ok(rows) => rows,
            Err(e) => {
                return Err(e);
            },
        },
        None => frame,
    };
    let wide: Frame = match derive {
        Some(list) => match apply_derived_columns(kept, list) {
            Ok(more) => more,
            Err(e) => {
                return Err(e);
            },
        },
        None => kept,
    };
    let short: Frame = match (group_by, agg) {
        (Some(column), Some(fold)) => match apply_grouping(&wide, column, fold) {
            Ok(groups) => groups,
            Err(e) => {
                return Err(e);
            },
        },
        _ => wide,
    };
    let ordered: Frame = match sort {
        Some(configs) => match apply_sorting(&short, configs) {
            Ok(rows) => rows,
            Err(e) => {
                return Err(e);
            },
        },
        None => short,
    };
    match limit {
        Some(n) => Ok(apply_limit(&ordered, n)),
        None => Ok(ordered),
    }
}

/// Runs the pipeline on a table, in its fixed order: filter, derive, group
/// and fold (where both a group column and a fold are given), sort, limit.
/// A step that names a column which the table lacks at that step fails the
/// pipeline, with the name of the column and the columns that the table has.
pub fn apply_transforms(frame: Frame, config: &TransformConfig) -> (r: Result<Frame, TransformError>)
    ensures
        yields(
            r,
            pipeline(
                frame@,
                config.filter,
                config.derive,
                config.group_by,
                config.agg,
                config.sort,
                config.limit,
            ),
        ),
{
    run_pipeline(
        frame,
        &config.filter,
        &config.derive,
        &config.group_by,
        &config.agg,
        &config.sort,
        config.limit,
    )
}

} // verus!
