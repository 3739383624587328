//! What is decided when a table is loaded: which columns look like dates or
//! timestamps, the format of a date text, whether the columns that a chart
//! needs are there, and which column a misspelt name may have meant.

use vstd::prelude::*;
use vstd::string::*;
use crate::frame::{Cell, CellView, Frame, FrameView};
use crate::sorting::{strings_view, texts_view};
use crate::text::{lemma_contains_middle, lemma_contains_within, lemma_list_holds_names, chars_contain, chars_eq, chars_of, contains_text, list_text, lowercase, push_list, push_str, string_of, trim_chars, trimmed};

verus! {

/// How a table is read from a file.
#[derive(Debug, Clone, Copy, PartialEq, Eq, Structural)]
pub struct LoadOptions {
    pub streaming: bool,
    pub infer_schema_length: Option<usize>,
    pub has_header: bool,
    pub try_parse_dates: bool,
}

impl Default for LoadOptions {
    /// The whole file at once, the kinds of the columns inferred from the
    /// first thousand rows, a header row, and dates parsed where possible.
    fn default() -> (o: LoadOptions)
        ensures
            o == (LoadOptions {
                streaming: false,
                infer_schema_length: Some(1000),
                has_header: true,
                try_parse_dates: true,
            }),
    {
        LoadOptions {
            streaming: false,
            infer_schema_length: Some(1000),
            has_header: true,
            try_parse_dates: true,
        }
    }
}

/// Whether a text holds one of the words that mark a date column.
pub open spec fn has_date_word(lower: Seq<char>) -> bool {
    contains_text(lower, "date"@) || contains_text(lower, "time"@) || contains_text(
        lower,
        "timestamp"@,
    ) || contains_text(lower, "created"@) || contains_text(lower, "updated"@) || contains_text(
        lower,
        "modified"@,
    ) || contains_text(lower, "event_date"@) || contains_text(lower, "session_date"@)
        || contains_text(lower, "first_seen"@) || contains_text(lower, "last_seen"@)
}

/// Whether a text holds one of the words that mark a timestamp column.
pub open spec fn has_timestamp_word(lower: Seq<char>) -> bool {
    contains_text(lower, "timestamp"@) || contains_text(lower, "_timestamp"@) || contains_text(
        lower,
        "time_micros"@,
    ) || contains_text(lower, "event_timestamp"@)
}

/// Whether the lowercase form of a column name holds one of the words that
/// mark a date column.
pub open spec fn looks_like_date(name: Seq<char>) -> bool {
    has_date_word(lowercase(name))
}

/// Whether the lowercase form of a column name holds one of the words that
/// mark a timestamp column.
pub open spec fn looks_like_timestamp(name: Seq<char>) -> bool {
    has_timestamp_word(lowercase(name))
}

fn holds(lower: &Vec<char>, word: &str) -> (b: bool)
    ensures
        b == contains_text(lower@, word@),
{
    let w: Vec<char> = chars_of(word);
    chars_contain(lower, &w)
}

/// Whether a name in lower case holds one of the words that mark a date
/// column: `date`, `time`, `timestamp`, `created`, `updated`, `modified`,
/// `event_date`, `session_date`, `first_seen`, `last_seen`.
pub fn holds_date_word(lower: &str) -> (b: bool)
    ensures
        b == has_date_word(lower@),
{
    let lower: Vec<char> = chars_of(lower);
    holds(&lower, "date") || holds(&lower, "time") || holds(&lower, "timestamp") || holds(
        &lower,
        "created",
    ) || holds(&lower, "updated") || holds(&lower, "modified") || holds(&lower, "event_date")
        || holds(&lower, "session_date") || holds(&lower, "first_seen") || holds(
        &lower,
        "last_seen",
    )
}

/// Whether a name in lower case holds one of the words that mark a
/// timestamp column: `timestamp`, `_timestamp`, `time_micros`,
/// `event_timestamp`.
pub fn holds_timestamp_word(lower: &str) -> (b: bool)
    ensures
        b == has_timestamp_word(lower@),
{
    let lower: Vec<char> = chars_of(lower);
    holds(&lower, "timestamp") || holds(&lower, "_timestamp") || holds(&lower, "time_micros")
        || holds(&lower, "event_timestamp")
}

/// Whether a column name looks like that of a date column, whatever its
/// case.
pub fn is_likely_date_column(col_name: &str) -> (b: bool)
    ensures
        b == looks_like_date(col_name@),
{
    let lower: String = col_name.to_lowercase();
    holds_date_word(lower.as_str())
}

/// Whether a column name looks like that of a timestamp column, whatever
/// its case.
pub fn is_likely_timestamp_column(col_name: &str) -> (b: bool)
    ensures
        b == looks_like_timestamp(col_name@),
{
    let lower: String = col_name.to_lowercase();
    holds_timestamp_word(lower.as_str())
}

/// The format of a date text.
#[derive(Debug, Clone, Copy, PartialEq, Eq, Structural)]
pub enum DateFormat {
    /// `YYYY-MM-DD`
    Iso,
    /// `YYYY-MM-DD HH:MM:SS`
    IsoDateTime,
    /// `YYYYMMDD`
    YyyyMmDd,
    /// `MM/DD/YYYY`
    MmDdYyyy,
    /// `DD/MM/YYYY`
    DdMmYyyy,
}

/// The pattern of a date format, in the notation of `strftime`.
pub open spec fn format_pattern(format: DateFormat) -> Seq<char> {
    match format {
        DateFormat::Iso => "%Y-%m-%d"@,
        DateFormat::IsoDateTime => "%Y-%m-%d %H:%M:%S"@,
        DateFormat::YyyyMmDd => "%Y%m%d"@,
        DateFormat::MmDdYyyy => "%m/%d/%Y"@,
        DateFormat::DdMmYyyy => "%d/%m/%Y"@,
    }
}

impl DateFormat {
    /// The pattern of the format, in the notation of `strftime`.
    pub fn to_polars_format(&self) -> (s: &'static str)
        ensures
            s@ == format_pattern(*self),
    {
        match self {
            DateFormat::Iso => "%Y-%m-%d",
            DateFormat::IsoDateTime => "%Y-%m-%d %H:%M:%S",
            DateFormat::YyyyMmDd => "%Y%m%d",
            DateFormat::MmDdYyyy => "%m/%d/%Y",
            DateFormat::DdMmYyyy => "%d/%m/%Y",
        }
    }
}

/// Whether a character is one of the ten digits.
pub open spec fn is_digit(c: char) -> bool {
    '0' <= c <= '9'
}

/// Whether a text is made of digits only.
pub open spec fn all_digits(s: Seq<char>) -> bool {
    forall|i: int| 0 <= i < s.len() ==> is_digit(#[trigger] s[i])
}

/// The format that a trimmed date text shows: a text of nineteen characters
/// or more with hyphens after the year and the month and a space after the
/// day is a date with a time; a text of ten characters with the two hyphens
/// is a date; eight digits are a compact date; a text of ten characters with
/// slashes after the second and fifth character is a date that begins with
/// the month. No other text shows a format.
pub open spec fn shown_format(t: Seq<char>) -> Option<DateFormat> {
    if t.len() >= 19 && t[4] == '-' && t[7] == '-' && t[10] == ' ' {
        Some(DateFormat::IsoDateTime)
    } else if t.len() == 10 && t[4] == '-' && t[7] == '-' {
        Some(DateFormat::Iso)
    } else if t.len() == 8 && all_digits(t) {
        Some(DateFormat::YyyyMmDd)
    } else if t.len() == 10 && t[2] == '/' && t[5] == '/' {
        Some(DateFormat::MmDdYyyy)
    } else {
        None
    }
}

/// Why something about the loaded table is refused.
#[derive(Debug, PartialEq, Eq)]
pub enum LoadError {
    /// A date text shows no known format.
    UnknownDateFormat { text: String },
    /// A column that should hold dates has no text among its first rows.
    NoDateText { column: String },
    /// The table lacks a column that a chart needs; `suggestion` is the
    /// column that may have been meant.
    ColumnNotFound { column: String, available: Vec<String>, suggestion: Option<String> },
}

/// The message for a date text of unknown format.
pub open spec fn unknown_format_text(text: Seq<char>) -> Seq<char> {
    "Could not detect date format for string: '"@ + text + "'"@
}

/// The message for a column without a date text.
pub open spec fn no_date_text(column: Seq<char>) -> Seq<char> {
    "Could not find valid date string in column '"@ + column + "'"@
}

/// The message for a missing column: it names the column, lists the columns
/// that the table has, and asks whether the suggestion was meant, where
/// there is one.
pub open spec fn missing_column_text(
    column: Seq<char>,
    available: Seq<Seq<char>>,
    suggestion: Option<Seq<char>>,
) -> Seq<char> {
    let head = "Column '"@ + column + "' not found in CSV. Available columns: "@ + list_text(
        available,
    );
    match suggestion {
        Some(s) => head + "\nDid you mean '"@ + s + "'?"@,
        None => head,
    }
}

/// The message for a missing column holds the name of the missing column and
/// the name of every column that the table has, each as it is, with a
/// suggestion or without.
pub proof fn law_missing_column_message_lists_columns(
    column: Seq<char>,
    available: Seq<Seq<char>>,
    suggestion: Option<Seq<char>>,
)
    ensures
        contains_text(missing_column_text(column, available, suggestion), column),
        forall|i: int|
            0 <= i < available.len() ==> contains_text(
                missing_column_text(column, available, suggestion),
                #[trigger] available[i],
            ),
{
    let head = "Column '"@;
    let middle = "' not found in CSV. Available columns: "@;
    let tail = match suggestion {
        Some(s) => "\nDid you mean '"@ + s + "'?"@,
        None => Seq::<char>::empty(),
    };
    let text = missing_column_text(column, available, suggestion);
    lemma_contains_middle(head, column, middle + list_text(available) + tail);
    assert(head + column + (middle + list_text(available) + tail) =~= text);
    assert forall|i: int| 0 <= i < available.len() implies contains_text(
        text,
        #[trigger] available[i],
    ) by {
        lemma_list_holds_names(available, i);
        lemma_contains_within(head + column + middle, list_text(available), tail, available[i]);
        assert(head + column + middle + list_text(available) + tail =~= text);
    }
}

impl LoadError {
    /// The message of the error as a character sequence.
    pub open spec fn text(&self) -> Seq<char> {
        match *self {
            LoadError::UnknownDateFormat { text } => unknown_format_text(text@),
            LoadError::NoDateText { column } => no_date_text(column@),
            LoadError::ColumnNotFound { column, available, suggestion } => missing_column_text(
                column@,
                strings_view(available@),
                match suggestion {
                    Some(s) => Some(s@),
                    None => None,
                },
            ),
        }
    }

    /// The message that reports the error.
    pub fn message(&self) -> (s: String)
        ensures
            s@ == self.text(),
    {
        let mut out: Vec<char> = Vec::new();
        match self {
            LoadError::UnknownDateFormat { text } => {
                push_str(&mut out, "Could not detect date format for string: '");
                push_str(&mut out, text.as_str());
                push_str(&mut out, "'");
            },
            LoadError::NoDateText { column } => {
                push_str(&mut out, "Could not find valid date string in column '");
                push_str(&mut out, column.as_str());
                push_str(&mut out, "'");
            },
            LoadError::ColumnNotFound { column, available, suggestion } => {
                push_str(&mut out, "Column '");
                push_str(&mut out, column.as_str());
                push_str(&mut out, "' not found in CSV. Available columns: ");
                push_list(&mut out, available);
                assert(strings_view(available@) =~= Seq::new(
                    available@.len(),
                    |i: int| available@[i]@,
                ));
                match suggestion {
                    Some(s) => {
                        push_str(&mut out, "\nDid you mean '");
                        push_str(&mut out, s.as_str());
                        push_str(&mut out, "'?");
                    },
                    None => {},
                }
            },
        }
        assert(out@ =~= self.text());
        string_of(&out)
    }
}

fn digits_only(t: &Vec<char>) -> (b: bool)
    ensures
        b == all_digits(t@),
{
    let mut i: usize = 0;
    while i < t.len()
        invariant
            i <= t.len(),
            forall|k: int| 0 <= k < i ==> is_digit(#[trigger] t@[k]),
        decreases t.len() - i,
    {
        if !('0' <= t[i] && t[i] <= '9') {
            return false;
        }
        i += 1;
    }
    true
}

/// Tells the format of a date text from its shape, the white space around
/// it left aside.
pub fn detect_format_from_string(date_str: &str) -> (r: Result<DateFormat, LoadError>)
    ensures
        match r {
            Ok(format) => shown_format(trimmed(date_str@)) == Some(format),
            Err(LoadError::UnknownDateFormat { text }) => shown_format(trimmed(date_str@)) is None
                && text@ == date_str@,
            Err(_) => false,
        },
{
    let all: Vec<char> = chars_of(date_str);
    let t: Vec<char> = trim_chars(&all);
    if t.len() >= 19 && t[4] == '-' && t[7] == '-' && t[10] == ' ' {
        return Ok(DateFormat::IsoDateTime);
    }
    if t.len() == 10 && t[4] == '-' && t[7] == '-' {
        return Ok(DateFormat::Iso);
    }
    if t.len() == 8 && digits_only(&t) {
        return Ok(DateFormat::YyyyMmDd);
    }
    if t.len() == 10 && t[2] == '/' && t[5] == '/' {
        return Ok(DateFormat::MmDdYyyy);
    }
    Err(LoadError::UnknownDateFormat { text: String::from_str(date_str) })
}

/// The names of the columns of a table, in their order.
pub fn get_column_names(frame: &Frame) -> (names: Vec<String>)
    ensures
        strings_view(names@) == frame@.names,
{
    let names: Vec<String> = frame.column_names();
    assert(strings_view(names@) =~= frame@.names);
    names
}

/// The fewest single-character edits (putting a character in, taking one
/// out, putting one in the place of another) that turn `a` into `b`.
pub open spec fn edit_distance(a: Seq<char>, b: Seq<char>) -> nat
    decreases a.len() + b.len(),
{
    if a.len() == 0 {
        b.len()
    } else if b.len() == 0 {
        a.len()
    } else {
        let drop = edit_distance(a.drop_last(), b) + 1;
        let add = edit_distance(a, b.drop_last()) + 1;
        let swap = edit_distance(a.drop_last(), b.drop_last()) + if a.last() == b.last() {
            0nat
        } else {
            1nat
        };
        if drop <= add && drop <= swap {
            drop
        } else if add <= swap {
            add
        } else {
            swap
        }
    }
}

/// The edit distance is at most the longer of the two lengths.
pub proof fn lemma_edit_distance_bound(a: Seq<char>, b: Seq<char>)
    ensures
        edit_distance(a, b) <= a.len() || edit_distance(a, b) <= b.len(),
        edit_distance(a, b) <= a.len() + b.len(),
    decreases a.len() + b.len(),
{
    if a.len() > 0 && b.len() > 0 {
        lemma_edit_distance_bound(a.drop_last(), b.drop_last());
    }
}

/// Counts the fewest single-character edits (putting a character in, taking
/// one out, putting one in the place of another) that turn one text into the
/// other.
pub fn levenshtein_distance(s1: &str, s2: &str) -> (d: usize)
    ensures
        d == edit_distance(s1@, s2@),
{
    let a: Vec<char> = chars_of(s1);
    let b: Vec<char> = chars_of(s2);
    chars_distance(&a, &b)
}

/// Counts the fewest single-character edits that turn `a` into `b`.
pub fn chars_distance(a: &Vec<char>, b: &Vec<char>) -> (d: usize)
    ensures
        d == edit_distance(a@, b@),
{
    let mut previous: Vec<u128> = Vec::new();
    previous.push(0);
    assert(a@.take(0).len() == 0);
    assert(b@.take(0).len() == 0);
    let mut j: usize = 0;
    while j < b.len()
        invariant
            j <= b.len(),
            previous@.len() == j + 1,
            forall|k: int|
                0 <= k <= j ==> #[trigger] previous@[k] == edit_distance(a@.take(0), b@.take(k)),
        decreases b.len() - j,
    {
        assert(a@.take(0).len() == 0);
        assert(b@.take(j + 1).len() == j + 1);
        previous.push((j as u128) + 1);
        j += 1;
    }
    let mut i: usize = 0;
    while i < a.len()
        invariant
            i <= a.len(),
            previous@.len() == b@.len() + 1,
            forall|k: int|
                0 <= k <= b@.len() ==> #[trigger] previous@[k] == edit_distance(
                    a@.take(i as int),
                    b@.take(k),
                ),
        decreases a.len() - i,
    {
        let mut current: Vec<u128> = Vec::new();
        assert(b@.take(0).len() == 0);
        assert(a@.take(i + 1).len() == i + 1);
        current.push((i as u128) + 1);
        let mut k: usize = 0;
        while k < b.len()
            invariant
                i < a.len(),
                k <= b.len(),
                previous@.len() == b@.len() + 1,
                current@.len() == k + 1,
                forall|m: int|
                    0 <= m <= b@.len() ==> #[trigger] previous@[m] == edit_distance(
                        a@.take(i as int),
                        b@.take(m),
                    ),
                forall|m: int|
                    0 <= m <= k ==> #[trigger] current@[m] == edit_distance(
                        a@.take(i + 1),
                        b@.take(m),
                    ),
            decreases b.len() - k,
        {
            let ghost x = a@.take(i + 1);
            let ghost y = b@.take(k + 1);
            proof {
                assert(x.drop_last() =~= a@.take(i as int));
                assert(y.drop_last() =~= b@.take(k as int));
                assert(x.last() == a@[i as int]);
                assert(y.last() == b@[k as int]);
                lemma_edit_distance_bound(x.drop_last(), y);
                lemma_edit_distance_bound(x, y.drop_last());
                lemma_edit_distance_bound(x.drop_last(), y.drop_last());
            }
            let cost: u128 = if a[i] == b[k] {
                0
            } else {
                1
            };
            let drop: u128 = previous[k + 1] + 1;
            let add: u128 = current[k] + 1;
            let swap: u128 = previous[k] + cost;
            let best: u128 = if drop <= add && drop <= swap {
                drop
            } else if add <= swap {
                add
            } else {
                swap
            };
            current.push(best);
            k += 1;
        }
        previous = current;
        i += 1;
    }
    assert(a@.take(a.len() as int) =~= a@);
    assert(b@.take(b.len() as int) =~= b@);
    proof {
        lemma_edit_distance_bound(a@, b@);
    }
    previous[b.len()] as usize
}

/// Whether a column matches a wanted name at the given step of the search,
/// both in lower case: the two are the same (step 0), or one holds the other
/// (step 1).
pub open spec fn name_matches(column: Seq<char>, wanted: Seq<char>, step: int) -> bool {
    if step == 0 {
        column == wanted
    } else {
        contains_text(column, wanted) || contains_text(wanted, column)
    }
}

/// The position of the first column that matches at a step, or the number
/// of columns where none does.
pub open spec fn first_match(columns: Seq<Seq<char>>, wanted: Seq<char>, step: int) -> int
    decreases columns.len(),
{
    if columns.len() == 0 {
        0
    } else if name_matches(columns[0], wanted, step) {
        0
    } else {
        1 + first_match(columns.drop_first(), wanted, step)
    }
}

/// The position of the column nearest to the wanted name among the first
/// `n`: the first one of the smallest edit distance, three at most; none
/// where no column is that near.
pub open spec fn nearest(columns: Seq<Seq<char>>, wanted: Seq<char>, n: nat) -> Option<int>
    decreases n,
{
    if n == 0 {
        None
    } else {
        let before = nearest(columns, wanted, (n - 1) as nat);
        let d = edit_distance(wanted, columns[n - 1]);
        if d <= 3 && (before is None || d < edit_distance(wanted, columns[before->0])) {
            Some(n - 1)
        } else {
            before
        }
    }
}

/// The position of the column that a wanted name may have meant, all names
/// in lower case: the first column that is the same; else the first column
/// that holds the name or is held by it; else the nearest column by edit
/// distance.
pub open spec fn suggested_among(columns: Seq<Seq<char>>, wanted: Seq<char>) -> Option<int> {
    if first_match(columns, wanted, 0) < columns.len() {
        Some(first_match(columns, wanted, 0))
    } else if first_match(columns, wanted, 1) < columns.len() {
        Some(first_match(columns, wanted, 1))
    } else {
        nearest(columns, wanted, columns.len())
    }
}

/// The lowercase forms of a run of names.
pub open spec fn lowered_names(names: Seq<Seq<char>>) -> Seq<Seq<char>> {
    Seq::new(names.len(), |i: int| lowercase(names[i]))
}

/// The position of the column that a requested name may have meant, case
/// aside.
pub open spec fn suggested(available: Seq<Seq<char>>, requested: Seq<char>) -> Option<int> {
    suggested_among(lowered_names(available), lowercase(requested))
}

fn lowered(names: &Vec<String>) -> (lower: Vec<Vec<char>>)
    ensures
        texts_view(lower@) == lowered_names(strings_view(names@)),
        lower@.len() == names@.len(),
{
    let mut lower: Vec<Vec<char>> = Vec::new();
    let mut i: usize = 0;
    while i < names.len()
        invariant
            i <= names.len(),
            lower@.len() == i,
            forall|k: int| 0 <= k < i ==> (#[trigger] lower@[k])@ == lowercase(names@[k]@),
        decreases names.len() - i,
    {
        let text: String = names[i].as_str().to_lowercase();
        lower.push(chars_of(text.as_str()));
        i += 1;
    }
    assert(texts_view(lower@) =~= lowered_names(strings_view(names@)));
    lower
}

fn find_match(columns: &Vec<Vec<char>>, wanted: &Vec<char>, step: u8) -> (r: usize)
    requires
        step <= 1,
    ensures
        r == first_match(texts_view(columns@), wanted@, step as int),
        r <= columns@.len(),
{
    let ghost names = texts_view(columns@);
    let mut i: usize = 0;
    assert(names.skip(0) =~= names);
    while i < columns.len()
        invariant
            i <= columns.len(),
            names == texts_view(columns@),
            step <= 1,
            first_match(names, wanted@, step as int) == i + first_match(
                names.skip(i as int),
                wanted@,
                step as int,
            ),
        decreases columns.len() - i,
    {
        assert(names.skip(i as int)[0] == columns@[i as int]@);
        let hit: bool = if step == 0 {
            chars_eq(&columns[i], wanted)
        } else {
            chars_contain(&columns[i], wanted) || chars_contain(wanted, &columns[i])
        };
        if hit {
            return i;
        }
        assert(names.skip(i as int).drop_first() =~= names.skip(i + 1));
        i += 1;
    }
    assert(names.skip(columns.len() as int).len() == 0);
    i
}

/// Finds the column that a wanted name may have meant, all names in lower
/// case: a column that is the same, else one that holds the name or is held
/// by it, else the nearest one within three edits.
pub fn suggest_among(columns: &Vec<Vec<char>>, wanted: &Vec<char>) -> (r: Option<usize>)
    ensures
        match r {
            Some(at) => suggested_among(texts_view(columns@), wanted@) == Some(at as int) && at
                < columns@.len(),
            None => suggested_among(texts_view(columns@), wanted@) is None,
        },
{
    let ghost names = texts_view(columns@);
    let same: usize = find_match(columns, wanted, 0);
    if same < columns.len() {
        return Some(same);
    }
    let partial: usize = find_match(columns, wanted, 1);
    if partial < columns.len() {
        return Some(partial);
    }
    let mut best: Option<usize> = None;
    let mut best_distance: usize = 0;
    let mut i: usize = 0;
    while i < columns.len()
        invariant
            i <= columns.len(),
            names == texts_view(columns@),
            match best {
                Some(at) => nearest(names, wanted@, i as nat) == Some(at as int) && at < i
                    && best_distance == edit_distance(wanted@, names[at as int]),
                None => nearest(names, wanted@, i as nat) is None,
            },
        decreases columns.len() - i,
    {
        assert(names[i as int] == columns@[i as int]@);
        let d: usize = chars_distance(wanted, &columns[i]);
        if d <= 3 && (best.is_none() || d < best_distance) {
            best_distance = d;
            best = Some(i);
        }
        i += 1;
    }
    best
}

/// Suggests the column that a requested name may have meant: a column that
/// is the same but for case, else one that holds the name or is held by it,
/// case aside, else the nearest one within three edits.
pub fn suggest_column_name(available: &Vec<String>, requested: &str) -> (r: Option<String>)
    ensures
        match r {
            Some(name) => suggested(strings_view(available@), requested@) is Some && name@
                == available@[suggested(strings_view(available@), requested@)->0]@,
            None => suggested(strings_view(available@), requested@) is None,
        },
{
    let lower: Vec<Vec<char>> = lowered(available);
    let wanted_text: String = requested.to_lowercase();
    let wanted: Vec<char> = chars_of(wanted_text.as_str());
    match suggest_among(&lower, &wanted) {
        Some(at) => Some(available[at].clone()),
        None => None,
    }
}

/// A suggestion is the position of a column.
pub proof fn lemma_suggested_in_range(available: Seq<Seq<char>>, requested: Seq<char>)
    ensures
        suggested(available, requested) matches Some(at) ==> 0 <= at < available.len(),
{
    let columns = lowered_names(available);
    let wanted = lowercase(requested);
    lemma_nearest_in_range(columns, wanted, columns.len());
    lemma_first_match_bound(columns, wanted, 0);
    lemma_first_match_bound(columns, wanted, 1);
}

/// The first match is a position or the number of columns.
pub proof fn lemma_first_match_bound(columns: Seq<Seq<char>>, wanted: Seq<char>, step: int)
    ensures
        0 <= first_match(columns, wanted, step) <= columns.len(),
    decreases columns.len(),
{
    if columns.len() > 0 && !name_matches(columns[0], wanted, step) {
        lemma_first_match_bound(columns.drop_first(), wanted, step);
    }
}

/// The nearest column among the first `n` is one of them.
pub proof fn lemma_nearest_in_range(columns: Seq<Seq<char>>, wanted: Seq<char>, n: nat)
    ensures
        nearest(columns, wanted, n) matches Some(at) ==> 0 <= at < n,
    decreases n,
{
    if n > 0 {
        lemma_nearest_in_range(columns, wanted, (n - 1) as nat);
    }
}

/// The first required column that the table lacks.
pub open spec fn first_absent(table: FrameView, required: Seq<Seq<char>>) -> int
    decreases required.len(),
{
    if required.len() == 0 {
        0
    } else if !table.has(required[0]) {
        0
    } else {
        1 + first_absent(table, required.drop_first())
    }
}

/// The first absent column is a position or the number of required columns.
pub proof fn lemma_first_absent_bound(table: FrameView, required: Seq<Seq<char>>)
    ensures
        0 <= first_absent(table, required) <= required.len(),
    decreases required.len(),
{
    if required.len() > 0 && table.has(required[0]) {
        lemma_first_absent_bound(table, required.drop_first());
    }
}

/// Checks that the table has every required column. The first column that
/// it lacks is reported with the columns that the table has and with the
/// column that may have been meant.
pub fn validate_columns(frame: &Frame, required_columns: &Vec<String>) -> (r: Result<(), LoadError>)
    ensures
        match r {
            Ok(_) => first_absent(frame@, strings_view(required_columns@))
                == required_columns@.len(),
            Err(LoadError::ColumnNotFound { column, available, suggestion }) => {
                let at = first_absent(frame@, strings_view(required_columns@));
                &&& at < required_columns@.len()
                &&& column@ == required_columns@[at]@
                &&& strings_view(available@) == frame@.names
                &&& match suggestion {
                    Some(s) => suggested(frame@.names, column@) is Some && s@
                        == frame@.names[suggested(frame@.names, column@)->0],
                    None => suggested(frame@.names, column@) is None,
                }
            },
            Err(_) => false,
        },
{
    let ghost wanted = strings_view(required_columns@);
    let mut i: usize = 0;
    assert(wanted.skip(0) =~= wanted);
    while i < required_columns.len()
        invariant
            i <= required_columns.len(),
            wanted == strings_view(required_columns@),
            first_absent(frame@, wanted) == i + first_absent(frame@, wanted.skip(i as int)),
        decreases required_columns.len() - i,
    {
        assert(wanted.skip(i as int)[0] == required_columns@[i as int]@);
        if frame.find_column(&required_columns[i]).is_none() {
            let available: Vec<String> = get_column_names(frame);
            let suggestion: Option<String> = suggest_column_name(
                &available,
                required_columns[i].as_str(),
            );
            proof {
                let found = suggested(frame@.names, required_columns@[i as int]@);
                if found is Some {
                    lemma_suggested_in_range(frame@.names, required_columns@[i as int]@);
                    assert(strings_view(available@)[found->0] == available@[found->0]@);
                }
            }
            return Err(
                LoadError::ColumnNotFound {
                    column: required_columns[i].clone(),
                    available,
                    suggestion,
                },
            );
        }
        assert(wanted.skip(i as int).drop_first() =~= wanted.skip(i + 1));
        i += 1;
    }
    assert(wanted.skip(required_columns.len() as int).len() == 0);
    Ok(())
}


/// How a parsed column is made from its source column.
#[derive(Debug, Clone, Copy, PartialEq, Eq, Structural)]
pub enum ParseKind {
    /// The texts are read as dates.
    CastToDate,
    /// The texts are kept as they are.
    KeepText,
    /// The numbers are microseconds since the first day of 1970 and become
    /// instants in milliseconds.
    MicrosecondsToInstant,
}

/// One column to add when a table is loaded: the source column, the name of
/// the new column, and how the new column is made.
#[derive(Debug, PartialEq, Eq)]
pub struct ParseStep {
    pub source: String,
    pub target: String,
    pub kind: ParseKind,
}

/// The name of the parsed form of a column.
pub open spec fn parsed_name(column: Seq<char>) -> Seq<char> {
    column + "_parsed"@
}

/// How a text column of a format is parsed: the two ISO formats are read
/// as dates, every other format is kept as text.
pub open spec fn date_parse_kind(format: DateFormat) -> ParseKind {
    match format {
        DateFormat::Iso => ParseKind::CastToDate,
        DateFormat::IsoDateTime => ParseKind::CastToDate,
        _ => ParseKind::KeepText,
    }
}

fn name_parsed(col_name: &str) -> (s: String)
    ensures
        s@ == parsed_name(col_name@),
{
    let mut out: Vec<char> = chars_of(col_name);
    push_str(&mut out, "_parsed");
    string_of(&out)
}

/// The step that parses a date column of the given format into a new column
/// named after it.
pub fn try_parse_date_column(col_name: &str, format: &DateFormat) -> (step: ParseStep)
    ensures
        step.source@ == col_name@,
        step.target@ == parsed_name(col_name@),
        step.kind == date_parse_kind(*format),
{
    let kind: ParseKind = match format {
        DateFormat::Iso => ParseKind::CastToDate,
        DateFormat::IsoDateTime => ParseKind::CastToDate,
        _ => ParseKind::KeepText,
    };
    ParseStep { source: String::from_str(col_name), target: name_parsed(col_name), kind }
}

/// The step that turns a column of microsecond timestamps into a new column
/// of instants named after it.
pub fn try_parse_timestamp_column(col_name: &str) -> (step: ParseStep)
    ensures
        step.source@ == col_name@,
        step.target@ == parsed_name(col_name@),
        step.kind == ParseKind::MicrosecondsToInstant,
{
    ParseStep {
        source: String::from_str(col_name),
        target: name_parsed(col_name),
        kind: ParseKind::MicrosecondsToInstant,
    }
}

/// The most rows that are sampled to find a date text.
pub const DATE_SAMPLE_ROWS: usize = 10;

/// The position of the first text cell among the first `n` cells, or `n`.
pub open spec fn first_text(cells: Seq<CellView>, n: nat) -> nat
    decreases n,
{
    if n == 0 {
        0
    } else if first_text(cells, (n - 1) as nat) < n - 1 {
        first_text(cells, (n - 1) as nat)
    } else if cells[n - 1] is Text {
        (n - 1) as nat
    } else {
        n
    }
}

/// The rows of a table that are sampled for a date text.
pub open spec fn date_sample(table: FrameView) -> nat {
    if table.height() < DATE_SAMPLE_ROWS {
        table.height()
    } else {
        DATE_SAMPLE_ROWS as nat
    }
}

/// The format of the dates of a column: that of the first text among its
/// first ten cells.
pub open spec fn column_format(table: FrameView, column: Seq<char>) -> Option<DateFormat> {
    let n = date_sample(table);
    let at = first_text(table.column(column), n);
    if table.has(column) && at < n {
        shown_format(trimmed(table.column(column)[at as int]->Text_0))
    } else {
        None
    }
}

/// Tells the format of the dates of a column from the first text among its
/// first ten cells.
pub fn detect_date_format(frame: &Frame, col_name: &String) -> (r: Result<DateFormat, LoadError>)
    ensures
        match r {
            Ok(format) => column_format(frame@, col_name@) == Some(format),
            Err(_) => column_format(frame@, col_name@) is None,
        },
{
    let c: usize = match frame.find_column(col_name) {
        Some(c) => c,
        None => {
            return Err(LoadError::NoDateText { column: col_name.clone() });
        },
    };
    let height: usize = frame.height();
    let n: usize = if height < DATE_SAMPLE_ROWS {
        height
    } else {
        DATE_SAMPLE_ROWS
    };
    let mut i: usize = 0;
    while i < n
        invariant
            c < frame@.names.len(),
            frame@.has(col_name@),
            c == frame@.position(col_name@),
            n <= frame@.height(),
            n == date_sample(frame@),
            i <= n,
            first_text(frame@.cells[c as int], i as nat) == i,
        decreases n - i,
    {
        if let Cell::Text(text) = frame.cell(c, i) {
            proof {
                lemma_first_text_stays(frame@.cells[c as int], i as nat, n as nat);
            }
            return detect_format_from_string(text.as_str());
        }
        i += 1;
    }
    Err(LoadError::NoDateText { column: col_name.clone() })
}

/// Once a text is found at a place, it stays the first text of every longer
/// run.
pub proof fn lemma_first_text_stays(cells: Seq<CellView>, at: nat, n: nat)
    requires
        at < n,
        first_text(cells, at) == at,
        cells[at as int] is Text,
    ensures
        first_text(cells, n) == at,
    decreases n,
{
    if n > at + 1 {
        lemma_first_text_stays(cells, at, (n - 1) as nat);
    }
}

/// The kind of the cells of a column.
#[derive(Debug, Clone, Copy, PartialEq, Eq, Structural)]
pub enum ColumnKind {
    /// Every cell is a text or null.
    Text,
    /// Every cell is a whole number or null, and one is a number.
    Whole,
    /// Cells of other or of several kinds.
    Other,
}

/// Whether every cell of a column is a text or null.
pub open spec fn is_text_column(cells: Seq<CellView>) -> bool {
    forall|i: int| 0 <= i < cells.len() ==> ((#[trigger] cells[i]) is Text || cells[i] is Null)
}

/// Whether every cell of a column is a signed whole number or null.
pub open spec fn is_whole_column(cells: Seq<CellView>) -> bool {
    forall|i: int| 0 <= i < cells.len() ==> ((#[trigger] cells[i]) is Int || cells[i] is Null)
}

/// The kind of the cells of a column.
pub open spec fn kind_of(cells: Seq<CellView>) -> ColumnKind {
    if is_text_column(cells) {
        ColumnKind::Text
    } else if is_whole_column(cells) {
        ColumnKind::Whole
    } else {
        ColumnKind::Other
    }
}

fn column_kind(frame: &Frame, c: usize) -> (k: ColumnKind)
    requires
        c < frame@.names.len(),
    ensures
        k == kind_of(frame@.cells[c as int]),
        frame@.wf(),
{
    let height: usize = frame.height();
    let mut text: bool = true;
    let mut whole: bool = true;
    let mut i: usize = 0;
    let ghost cells = frame@.cells[c as int];
    assert(cells.len() == height);
    while i < height
        invariant
            c < frame@.names.len(),
            height == frame@.height(),
            cells == frame@.cells[c as int],
            cells.len() == height,
            i <= height,
            text == forall|k: int| 0 <= k < i ==> ((#[trigger] cells[k]) is Text || cells[k] is Null),
            whole == forall|k: int| 0 <= k < i ==> ((#[trigger] cells[k]) is Int || cells[k] is Null),
        decreases height - i,
    {
        match frame.cell(c, i) {
            Cell::Null => {},
            Cell::Text(_) => {
                if whole {
                    assert(!(cells[i as int] is Int || cells[i as int] is Null));
                }
                whole = false;
            },
            Cell::Int(_) => {
                if text {
                    assert(!(cells[i as int] is Text || cells[i as int] is Null));
                }
                text = false;
            },
            _ => {
                if whole {
                    assert(!(cells[i as int] is Int || cells[i as int] is Null));
                }
                if text {
                    assert(!(cells[i as int] is Text || cells[i as int] is Null));
                }
                text = false;
                whole = false;
            },
        }
        i += 1;
    }
    if text {
        ColumnKind::Text
    } else if whole {
        ColumnKind::Whole
    } else {
        ColumnKind::Other
    }
}

/// The step that a column gives when a table is loaded: a text column whose
/// name looks like a date and whose first text shows a format is parsed by
/// that format; a column of whole numbers whose name looks like a timestamp
/// becomes instants; every other column gives no step.
pub open spec fn column_step(table: FrameView, c: int) -> Option<(Seq<char>, ParseKind)> {
    let name = table.names[c];
    match kind_of(table.cells[c]) {
        ColumnKind::Text => if looks_like_date(name) && first_index_is(table, c) {
            match column_format(table, name) {
                Some(format) => Some((name, date_parse_kind(format))),
                None => None,
            }
        } else {
            None
        },
        ColumnKind::Whole => if looks_like_timestamp(name) {
            Some((name, ParseKind::MicrosecondsToInstant))
        } else {
            None
        },
        ColumnKind::Other => None,
    }
}

/// Whether column `c` is the first column of its name.
pub open spec fn first_index_is(table: FrameView, c: int) -> bool {
    table.position(table.names[c]) == c
}

/// The steps of the first `n` columns, in the order of the columns.
pub open spec fn parse_steps(table: FrameView, n: nat) -> Seq<(Seq<char>, ParseKind)>
    decreases n,
{
    if n == 0 {
        Seq::empty()
    } else {
        match column_step(table, n - 1) {
            Some(step) => parse_steps(table, (n - 1) as nat).push(step),
            None => parse_steps(table, (n - 1) as nat),
        }
    }
}

/// The sources and kinds of a run of steps.
pub open spec fn steps_view(steps: Seq<ParseStep>) -> Seq<(Seq<char>, ParseKind)> {
    Seq::new(steps.len(), |i: int| (steps[i].source@, steps[i].kind))
}

/// Lists the columns to add when a table is loaded: the parsed form of every
/// column that looks like a date column or a timestamp column. Every new
/// column is named after its source.
pub fn detect_and_parse_dates(frame: &Frame) -> (steps: Vec<ParseStep>)
    ensures
        steps_view(steps@) == parse_steps(frame@, frame@.names.len()),
        forall|i: int|
            0 <= i < steps@.len() ==> (#[trigger] steps@[i]).target@ == parsed_name(
                steps@[i].source@,
            ),
{
    let width: usize = frame.width();
    let mut steps: Vec<ParseStep> = Vec::new();
    let mut c: usize = 0;
    assert(steps_view(steps@) =~= parse_steps(frame@, 0));
    while c < width
        invariant
            width == frame@.names.len(),
            c <= width,
            steps_view(steps@) == parse_steps(frame@, c as nat),
            forall|i: int|
                0 <= i < steps@.len() ==> (#[trigger] steps@[i]).target@ == parsed_name(
                    steps@[i].source@,
                ),
        decreases width - c,
    {
        let name: &String = frame.name(c);
        let ghost before = steps_view(steps@);
        match column_kind(frame, c) {
            ColumnKind::Text => {
                let first: bool = match frame.find_column(name) {
                    Some(at) => at == c,
                    None => false,
                };
                if first && is_likely_date_column(name.as_str()) {
                    if let Ok(format) = detect_date_format(frame, name) {
                        steps.push(try_parse_date_column(name.as_str(), &format));
                        assert(steps_view(steps@) =~= before.push(
                            (name@, date_parse_kind(format)),
                        ));
                    }
                }
            },
            ColumnKind::Whole => {
                if is_likely_timestamp_column(name.as_str()) {
                    steps.push(try_parse_timestamp_column(name.as_str()));
                    assert(steps_view(steps@) =~= before.push(
                        (name@, ParseKind::MicrosecondsToInstant),
                    ));
                }
            },
            ColumnKind::Other => {},
        }
        c += 1;
    }
    steps
}

} // verus!
