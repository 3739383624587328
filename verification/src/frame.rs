//! The table that the pipeline reshapes and the charts read: named columns of
//! tagged cells, all of one height.

use vstd::prelude::*;
use vstd::string::*;
use crate::text::{int_text, nat_text, push_int, push_nat, push_str, push_thousandths, string_of, thousandths_text};

verus! {

/// One cell of a table. `Real` counts thousandths, `Date` counts days and
/// `Datetime` milliseconds since the first day of 1970.
#[derive(Debug, PartialEq, Eq)]
pub enum Cell {
    Null,
    Boolean(bool),
    Int(i64),
    UInt(u64),
    Real(i64),
    Text(String),
    Date(i32),
    Datetime(i64),
}

/// A cell with its text as a character sequence.
pub enum CellView {
    Null,
    Boolean(bool),
    Int(i64),
    UInt(u64),
    Real(i64),
    Text(Seq<char>),
    Date(i32),
    Datetime(i64),
}

impl View for Cell {
    type V = CellView;

    open spec fn view(&self) -> CellView {
        match *self {
            Cell::Null => CellView::Null,
            Cell::Boolean(b) => CellView::Boolean(b),
            Cell::Int(i) => CellView::Int(i),
            Cell::UInt(u) => CellView::UInt(u),
            Cell::Real(m) => CellView::Real(m),
            Cell::Text(s) => CellView::Text(s@),
            Cell::Date(d) => CellView::Date(d),
            Cell::Datetime(t) => CellView::Datetime(t),
        }
    }
}

impl Clone for Cell {
    fn clone(&self) -> (c: Cell)
        ensures
            c@ == self@,
    {
        match self {
            Cell::Null => Cell::Null,
            Cell::Boolean(b) => Cell::Boolean(*b),
            Cell::Int(i) => Cell::Int(*i),
            Cell::UInt(u) => Cell::UInt(*u),
            Cell::Real(m) => Cell::Real(*m),
            Cell::Text(s) => Cell::Text(s.clone()),
            Cell::Date(d) => Cell::Date(*d),
            Cell::Datetime(t) => Cell::Datetime(*t),
        }
    }
}

/// The thousandths in one unit: quantities are counted in thousandths.
pub const UNIT: i128 = 1000;

/// The largest magnitude of a quantity read from a cell, in thousandths.
pub const MEASURE_LIMIT: i128 = 18_446_744_073_709_551_616_000;

/// The quantity that a cell holds, in thousandths; none for a cell that is
/// not a number.
pub open spec fn measure_of(c: CellView) -> Option<int> {
    match c {
        CellView::Int(i) => Some(i * 1000),
        CellView::UInt(u) => Some(u * 1000),
        CellView::Real(m) => Some(m as int),
        _ => None,
    }
}

/// The quantity that a chart plots for a cell: zero where the cell is not a
/// number.
pub open spec fn plotted(c: CellView) -> int {
    match measure_of(c) {
        Some(m) => m,
        None => 0,
    }
}

/// The text by which a cell is named as a category, a group or a cohort.
pub open spec fn label_of(c: CellView) -> Seq<char> {
    match c {
        CellView::Null => "null"@,
        CellView::Boolean(b) => if b {
            "true"@
        } else {
            "false"@
        },
        CellView::Int(i) => int_text(i as int),
        CellView::UInt(u) => nat_text(u as nat),
        CellView::Real(m) => thousandths_text(m as int),
        CellView::Text(s) => s,
        CellView::Date(d) => int_text(d as int),
        CellView::Datetime(t) => int_text(t as int),
    }
}

/// Reads the quantity of a cell, in thousandths. Whole numbers and reals give
/// a quantity; every other cell gives none.
pub fn extract_numeric_value(value: &Cell) -> (r: Option<i128>)
    ensures
        r matches Some(m) ==> measure_of(value@) == Some(m as int) && -MEASURE_LIMIT <= m
            <= MEASURE_LIMIT,
        r is None ==> measure_of(value@) is None,
{
    match value {
        Cell::Int(i) => Some((*i as i128) * UNIT),
        Cell::UInt(u) => Some((*u as i128) * UNIT),
        Cell::Real(m) => Some(*m as i128),
        _ => None,
    }
}

/// The quantity that a chart plots for a cell, in thousandths: the cell's
/// quantity, or zero where it has none.
pub fn plotted_value(value: &Cell) -> (m: i128)
    ensures
        m == plotted(value@),
        -MEASURE_LIMIT <= m <= MEASURE_LIMIT,
{
    match extract_numeric_value(value) {
        Some(m) => m,
        None => 0,
    }
}

impl Cell {
    /// The text by which the cell is named as a category, a group or a cohort.
    pub fn label(&self) -> (s: String)
        ensures
            s@ == label_of(self@),
    {
        let mut out: Vec<char> = Vec::new();
        match self {
            Cell::Null => push_str(&mut out, "null"),
            Cell::Boolean(b) => {
                if *b {
                    push_str(&mut out, "true")
                } else {
                    push_str(&mut out, "false")
                }
            },
            Cell::Int(i) => push_int(&mut out, *i as i128),
            Cell::UInt(u) => push_nat(&mut out, *u as u128),
            Cell::Real(m) => push_thousandths(&mut out, *m as i128),
            Cell::Text(s) => push_str(&mut out, s.as_str()),
            Cell::Date(d) => push_int(&mut out, *d as i128),
            Cell::Datetime(t) => push_int(&mut out, *t as i128),
        }
        assert(out@ =~= label_of(self@));
        string_of(&out)
    }
}

/// The views of a run of cells.
pub open spec fn cells_view(cells: Seq<Cell>) -> Seq<CellView> {
    Seq::new(cells.len(), |i: int| cells[i]@)
}

/// A named column of cells.
#[derive(Debug)]
pub struct Column {
    pub name: String,
    pub cells: Vec<Cell>,
}

/// A table as plain sequences: the column names, and the cells of each
/// column from the first row down.
pub struct FrameView {
    pub names: Seq<Seq<char>>,
    pub cells: Seq<Seq<CellView>>,
}

/// The position of the first of `names` that equals `name`, or the length of
/// `names` where none does.
pub open spec fn first_index(names: Seq<Seq<char>>, name: Seq<char>) -> int
    decreases names.len(),
{
    if names.len() == 0 {
        0
    } else if names[0] == name {
        0
    } else {
        1 + first_index(names.drop_first(), name)
    }
}

/// `first_index` finds the first match and nothing before it matches.
pub proof fn lemma_first_index(names: Seq<Seq<char>>, name: Seq<char>)
    ensures
        0 <= first_index(names, name) <= names.len(),
        first_index(names, name) < names.len() ==> names[first_index(names, name)] == name,
        forall|k: int| 0 <= k < first_index(names, name) ==> #[trigger] names[k] != name,
    decreases names.len(),
{
    if names.len() > 0 && names[0] != name {
        let rest = names.drop_first();
        lemma_first_index(rest, name);
        assert forall|k: int| 0 <= k < first_index(names, name) implies #[trigger] names[k]
            != name by {
            if k > 0 {
                assert(names[k] == rest[k - 1]);
            }
        }
    }
}

impl FrameView {
    /// The number of rows: the height of the first column, or zero.
    pub open spec fn height(self) -> nat {
        if self.cells.len() == 0 {
            0
        } else {
            self.cells[0].len()
        }
    }

    /// Every column has a name and all columns are of one height.
    pub open spec fn wf(self) -> bool {
        &&& self.names.len() == self.cells.len()
        &&& forall|c: int| 0 <= c < self.cells.len() ==> (#[trigger] self.cells[c]).len()
            == self.height()
    }

    /// Whether a column has this name.
    pub open spec fn has(self, name: Seq<char>) -> bool {
        first_index(self.names, name) < self.names.len()
    }

    /// The position of the first column with this name.
    pub open spec fn position(self, name: Seq<char>) -> int {
        first_index(self.names, name)
    }

    /// The cells of the first column with this name.
    pub open spec fn column(self, name: Seq<char>) -> Seq<CellView> {
        self.cells[self.position(name)]
    }

    /// The table made of the given rows of this one, in the given order.
    pub open spec fn select(self, rows: Seq<usize>) -> FrameView {
        FrameView {
            names: self.names,
            cells: Seq::new(
                self.cells.len(),
                |c: int| Seq::new(rows.len(), |i: int| self.cells[c][rows[i] as int]),
            ),
        }
    }

    /// The table with a column added at the end, or put in the place of the
    /// first column that has the same name.
    pub open spec fn with_column(self, name: Seq<char>, cells: Seq<CellView>) -> FrameView {
        if self.has(name) {
            FrameView { names: self.names, cells: self.cells.update(self.position(name), cells) }
        } else {
            FrameView { names: self.names.push(name), cells: self.cells.push(cells) }
        }
    }
}

/// A table: named columns of one height.
#[derive(Debug)]
pub struct Frame {
    pub(crate) columns: Vec<Column>,
}

impl View for Frame {
    type V = FrameView;

    closed spec fn view(&self) -> FrameView {
        FrameView {
            names: Seq::new(self.columns@.len(), |c: int| self.columns@[c].name@),
            cells: Seq::new(self.columns@.len(), |c: int| cells_view(self.columns@[c].cells@)),
        }
    }
}

impl Frame {
    #[verifier::type_invariant]
    closed spec fn same_heights(&self) -> bool {
        forall|c: int|
            0 <= c < self.columns@.len() ==> (#[trigger] self.columns@[c]).cells@.len()
                == self.columns@[0].cells@.len()
    }

    /// A table of the given columns, or the columns back where they are not
    /// all of one height.
    pub fn new(columns: Vec<Column>) -> (r: Result<Frame, Vec<Column>>)
        ensures
            match r {
                Ok(f) => {
                    &&& f@.wf()
                    &&& f@.names.len() == columns@.len()
                    &&& forall|c: int|
                        0 <= c < columns@.len() ==> f@.names[c] == (#[trigger] columns@[c]).name@
                            && f@.cells[c] == cells_view(columns@[c].cells@)
                },
                Err(given) => given == columns && exists|c: int|
                    0 <= c < columns@.len() && (#[trigger] columns@[c]).cells@.len()
                        != columns@[0].cells@.len(),
            },
    {
        let mut c: usize = 0;
        while c < columns.len()
            invariant
                c <= columns.len(),
                forall|k: int|
                    0 <= k < c ==> (#[trigger] columns@[k]).cells@.len() == columns@[0].cells@.len(),
            decreases columns.len() - c,
        {
            if columns[c].cells.len() != columns[0].cells.len() {
                return Err(columns);
            }
            c += 1;
        }
        let f: Frame = Frame { columns };
        assert(f@.wf()) by {
            assert forall|k: int| 0 <= k < f@.cells.len() implies (#[trigger] f@.cells[k]).len()
                == f@.height() by {
                assert(f.columns@[k].cells@.len() == f.columns@[0].cells@.len());
            }
        }
        Ok(f)
    }

    /// A table of columns that are all of one height.
    pub(crate) fn from_columns(columns: Vec<Column>) -> (f: Frame)
        requires
            forall|c: int|
                0 <= c < columns@.len() ==> (#[trigger] columns@[c]).cells@.len()
                    == columns@[0].cells@.len(),
        ensures
            f@.wf(),
            f@.names.len() == columns@.len(),
            f@.cells.len() == columns@.len(),
            forall|c: int|
                0 <= c < columns@.len() ==> f@.names[c] == (#[trigger] columns@[c]).name@
                    && f@.cells[c] == cells_view(columns@[c].cells@),
    {
        let f: Frame = Frame { columns };
        assert(f@.wf()) by {
            assert forall|k: int| 0 <= k < f@.cells.len() implies (#[trigger] f@.cells[k]).len()
                == f@.height() by {
                assert(f.columns@[k].cells@.len() == f.columns@[0].cells@.len());
            }
        }
        f
    }

    /// The number of columns. Every table is well formed.
    pub fn width(&self) -> (w: usize)
        ensures
            w == self@.names.len(),
            self@.wf(),
    {
        proof {
            use_type_invariant(self);
            assert forall|k: int| 0 <= k < self@.cells.len() implies (#[trigger] self@.cells[k]).len()
                == self@.height() by {
                assert(self.columns@[k].cells@.len() == self.columns@[0].cells@.len());
            }
        }
        self.columns.len()
    }

    /// The number of rows.
    pub fn height(&self) -> (h: usize)
        ensures
            h == self@.height(),
            self@.wf(),
    {
        let w: usize = self.width();
        if w == 0 {
            0
        } else {
            self.columns[0].cells.len()
        }
    }

    /// The name of the column at position `c`.
    pub fn name(&self, c: usize) -> (s: &String)
        requires
            c < self@.names.len(),
        ensures
            s@ == self@.names[c as int],
    {
        &self.columns[c].name
    }

    /// The cell of column `c` in row `r`.
    pub fn cell(&self, c: usize, r: usize) -> (v: &Cell)
        requires
            c < self@.names.len(),
            r < self@.height(),
        ensures
            v@ == self@.cells[c as int][r as int],
    {
        // Reading the width recalls that the columns are of one height.
        let w: usize = self.width();
        assert(self@.cells[c as int].len() == self@.height());
        &self.columns[c].cells[r]
    }

    /// The names of the columns, in their order.
    pub fn column_names(&self) -> (names: Vec<String>)
        ensures
            names@.len() == self@.names.len(),
            forall|c: int| 0 <= c < names@.len() ==> (#[trigger] names@[c])@ == self@.names[c],
    {
        let mut names: Vec<String> = Vec::new();
        let mut c: usize = 0;
        while c < self.columns.len()
            invariant
                c <= self.columns.len(),
                names@.len() == c,
                forall|k: int| 0 <= k < c ==> (#[trigger] names@[k])@ == self.columns@[k].name@,
            decreases self.columns.len() - c,
        {
            names.push(self.columns[c].name.clone());
            c += 1;
        }
        names
    }

    /// The position of the first column with this name.
    pub fn find_column(&self, name: &String) -> (r: Option<usize>)
        ensures
            match r {
                Some(c) => self@.has(name@) && c == self@.position(name@) && c
                    < self@.names.len(),
                None => !self@.has(name@),
            },
    {
        let mut c: usize = 0;
        proof {
            lemma_first_index(self@.names, name@);
        }
        while c < self.columns.len()
            invariant
                c <= self.columns.len(),
                forall|k: int| 0 <= k < c ==> #[trigger] self@.names[k] != name@,
                0 <= first_index(self@.names, name@) <= self@.names.len(),
                first_index(self@.names, name@) < self@.names.len() ==> self@.names[first_index(
                    self@.names,
                    name@,
                )] == name@,
                forall|k: int|
                    0 <= k < first_index(self@.names, name@) ==> #[trigger] self@.names[k] != name@,
            decreases self.columns.len() - c,
        {
            if self.columns[c].name == *name {
                assert(self@.names[c as int] == name@);
                return Some(c);
            }
            assert(self@.names[c as int] != name@);
            c += 1;
        }
        None
    }

    /// The table made of the given rows of this one, in the given order.
    pub fn take_rows(&self, rows: &Vec<usize>) -> (f: Frame)
        requires
            forall|i: int| 0 <= i < rows@.len() ==> (#[trigger] rows@[i]) < self@.height(),
        ensures
            f@ == self@.select(rows@),
            f@.wf(),
    {
        let w: usize = self.width();
        let mut columns: Vec<Column> = Vec::new();
        let mut c: usize = 0;
        while c < w
            invariant
                w == self.columns@.len(),
                self@.wf(),
                c <= w,
                columns@.len() == c,
                forall|i: int| 0 <= i < rows@.len() ==> (#[trigger] rows@[i]) < self@.height(),
                forall|k: int|
                    0 <= k < c ==> (#[trigger] columns@[k]).name@ == self@.names[k] && cells_view(
                        columns@[k].cells@,
                    ) == self@.select(rows@).cells[k],
            decreases w - c,
        {
            let source: &Column = &self.columns[c];
            let mut cells: Vec<Cell> = Vec::new();
            let mut i: usize = 0;
            assert(self@.cells[c as int].len() == self@.height());
            while i < rows.len()
                invariant
                    i <= rows.len(),
                    c < w,
                    w == self.columns@.len(),
                    source == self.columns@[c as int],
                    source.cells@.len() == self@.height(),
                    cells@.len() == i,
                    forall|k: int| 0 <= k < rows@.len() ==> (#[trigger] rows@[k]) < self@.height(),
                    forall|k: int|
                        0 <= k < i ==> (#[trigger] cells@[k])@ == source.cells@[rows@[k] as int]@,
                decreases rows.len() - i,
            {
                cells.push(source.cells[rows[i]].clone());
                i += 1;
            }
            assert(cells_view(cells@) =~= self@.select(rows@).cells[c as int]);
            columns.push(Column { name: source.name.clone(), cells });
            c += 1;
        }
        assert forall|k: int| 0 <= k < columns@.len() implies (#[trigger] columns@[k]).cells@.len()
            == columns@[0].cells@.len() by {
            assert(cells_view(columns@[k].cells@).len() == rows@.len());
            assert(cells_view(columns@[0].cells@).len() == rows@.len());
        }
        let f: Frame = Frame { columns };
        assert(f@.names =~= self@.select(rows@).names);
        assert(f@.cells =~= self@.select(rows@).cells);
        f
    }

    /// The table with a column added at the end, or put in the place of the
    /// first column that has the same name. The column must be as high as
    /// the table, unless the table has no column yet.
    pub(crate) fn with_column(self, name: String, cells: Vec<Cell>) -> (f: Frame)
        requires
            self@.names.len() > 0 ==> cells@.len() == self@.height(),
        ensures
            f@ == self@.with_column(name@, cells_view(cells@)),
            f@.wf(),
    {
        let found: Option<usize> = self.find_column(&name);
        // Reading the width recalls that the columns are of one height.
        let w: usize = self.width();
        proof {
            lemma_first_index(self@.names, name@);
        }
        let ghost before = self@;
        let ghost old_columns = self.columns@;
        let mut columns: Vec<Column> = self.columns;
        assert(before.cells.len() > 0 ==> before.cells[0].len() == before.height());
        assert(before.names.len() > 0 ==> old_columns[0].cells@.len() == before.height());
        match found {
            Some(c) => {
                columns.set(c, Column { name, cells });
            },
            None => {
                columns.push(Column { name, cells });
            },
        }
        assert forall|k: int| 0 <= k < columns@.len() implies (#[trigger] columns@[k]).cells@.len()
            == columns@[0].cells@.len() by {
            if k < old_columns.len() {
                assert(before.cells[k].len() == before.height());
                assert(cells_view(old_columns[k].cells@).len() == before.height());
            }
            assert(cells_view(columns@[k].cells@).len() == columns@[k].cells@.len());
            assert(cells_view(columns@[0].cells@).len() == columns@[0].cells@.len());
        }
        let f: Frame = Frame { columns };
        assert(f@.names =~= before.with_column(name@, cells_view(cells@)).names);
        assert(f@.cells =~= before.with_column(name@, cells_view(cells@)).cells);
        assert(f@.wf()) by {
            assert forall|k: int| 0 <= k < f@.cells.len() implies (#[trigger] f@.cells[k]).len()
                == f@.height() by {
                assert(f.columns@[k].cells@.len() == f.columns@[0].cells@.len());
            }
        }
        f
    }
}

} // verus!
