//! The reader: CSV text in, rows of raw fields out.
use crate::error::{empty_data_text, mismatch_message, mismatch_text, CsvError, ErrorKind};
use crate::text::{chars_of, is_space_exec, is_unicode_space, trim_ascii, trim_ascii_str};
use vstd::prelude::*;

verus! {

/// Whether fields keep their surrounding whitespace or lose it.
#[derive(Debug, Clone, Copy, PartialEq, Eq, Structural)]
pub enum Trim {
    /// Fields are stored as written, apart from unquoting.
    Off,
    /// Leading and trailing ASCII whitespace is stripped from every field.
    All,
}

/// Settings for parsing.
#[derive(Debug, Clone)]
pub struct CsvParseOptions {
    /// Whether every field is trimmed.
    pub trim: bool,
}

impl Default for CsvParseOptions {
    fn default() -> (r: Self)
        ensures
            !r.trim,
    {
        CsvParseOptions { trim: false }
    }
}

/// The rows that the CSV crate reads from `text` when it reads no header,
/// accepts rows of any width and trims nothing.
pub uninterp spec fn csv_records(text: Seq<char>) -> Seq<Seq<Seq<char>>>;

/// Relies on `csv::Reader::records`, configured for no header row
/// (`has_headers(false)`), rows of any width (`flexible(true)`) and no
/// trimming: its rows as lists of fields. Over a byte slice of valid UTF-8
/// it cannot fail: a slice gives no I/O error, fields are cut at ASCII bytes
/// only so each stays valid UTF-8, and `flexible(true)` turns off the
/// check on row lengths.
#[verifier::external_body]
fn read_csv_records(text: &str) -> (r: Result<Vec<Vec<String>>, csv::Error>)
    ensures
        r is Ok,
        r is Ok ==> r->Ok_0.deep_view() == csv_records(text@),
{
    let mut reader = csv::ReaderBuilder::new().has_headers(false).flexible(true).from_reader(
        text.as_bytes(),
    );
    let mut rows = Vec::new();
    for record in reader.records() {
        rows.push(record?.iter().map(String::from).collect());
    }
    Ok(rows)
}

/// Whether `s` is empty or made of Unicode whitespace only.
pub open spec fn is_blank(s: Seq<char>) -> bool {
    forall|i: int| 0 <= i < s.len() ==> is_unicode_space(#[trigger] s[i])
}

fn is_blank_str(s: &str) -> (r: bool)
    ensures
        r == is_blank(s@),
{
    let cs = chars_of(s);
    let mut i: usize = 0;
    while i < cs.len()
        invariant
            i <= cs@.len(),
            cs@ == s@,
            forall|k: int| 0 <= k < i ==> is_unicode_space(#[trigger] s@[k]),
        decreases cs@.len() - i,
    {
        if !is_space_exec(cs[i], true) {
            return false;
        }
        i = i + 1;
    }
    true
}

/// `rows` with every field trimmed of ASCII whitespace when `trim` is `All`.
pub open spec fn trimmed_rows(rows: Seq<Seq<Seq<char>>>, trim: Trim) -> Seq<Seq<Seq<char>>> {
    match trim {
        Trim::Off => rows,
        Trim::All => Seq::new(
            rows.len(),
            |i: int| Seq::new(rows[i].len(), |j: int| trim_ascii(rows[i][j])),
        ),
    }
}

/// Whether row `i` is the first row whose width differs from row 0's.
pub open spec fn is_first_mismatch(rows: Seq<Seq<Seq<char>>>, i: int) -> bool {
    &&& 0 <= i < rows.len()
    &&& rows[i].len() != rows[0].len()
    &&& forall|j: int| 0 <= j < i ==> #[trigger] rows[j].len() == rows[0].len()
}

/// Whether every row has as many fields as row 0.
pub open spec fn is_rectangular(rows: Seq<Seq<Seq<char>>>) -> bool {
    forall|i: int| 0 <= i < rows.len() ==> #[trigger] rows[i].len() == rows[0].len()
}

/// What parsing makes of the rows that tokenizing gave: no rows is
/// `EmptyData`; a row narrower or wider than the first is a
/// `FieldCountMismatch` naming the first such row by its 1-based line;
/// otherwise the rows, trimmed as `trim` says.
pub open spec fn records_result(
    rows: Seq<Seq<Seq<char>>>,
    trim: Trim,
    r: Result<Vec<Vec<String>>, CsvError>,
) -> bool {
    &&& rows.len() == 0 ==> r is Err && r->Err_0@.kind == ErrorKind::EmptyData
        && r->Err_0@.message == empty_data_text()
    &&& forall|i: int| #[trigger]
        is_first_mismatch(rows, i) ==> r is Err && r->Err_0@.kind
            == ErrorKind::FieldCountMismatch && r->Err_0@.message == mismatch_text(
            (i + 1) as nat,
            rows[0].len(),
            rows[i].len(),
        )
    &&& rows.len() > 0 && is_rectangular(rows) ==> r is Ok && r->Ok_0.deep_view()
        == trimmed_rows(rows, trim)
}

pub(crate) proof fn lemma_first_mismatch_unique(rows: Seq<Seq<Seq<char>>>, i: int)
    requires
        is_first_mismatch(rows, i),
    ensures
        forall|k: int| #[trigger] is_first_mismatch(rows, k) ==> k == i,
        !is_rectangular(rows),
{
    assert forall|k: int| #[trigger] is_first_mismatch(rows, k) implies k == i by {
        if k < i {
            assert(rows[k].len() == rows[0].len());
        } else if k > i {
            assert(rows[i].len() == rows[0].len());
        }
    }
    assert(rows[i].len() != rows[0].len());
}

/// The first row, if any, whose width differs from row 0's.
pub(crate) fn find_width_mismatch(rows: &Vec<Vec<String>>) -> (r: Option<usize>)
    requires
        rows@.len() > 0,
    ensures
        match r {
            Some(i) => is_first_mismatch(rows.deep_view(), i as int),
            None => is_rectangular(rows.deep_view()),
        },
{
    let ghost view = rows.deep_view();
    let expected = rows[0].len();
    let mut i: usize = 0;
    while i < rows.len()
        invariant
            i <= rows@.len(),
            view == rows.deep_view(),
            expected == view[0].len(),
            forall|j: int| 0 <= j < i ==> #[trigger] view[j].len() == view[0].len(),
        decreases rows@.len() - i,
    {
        assert(view[i as int] == rows@[i as int].deep_view());
        if rows[i].len() != expected {
            return Some(i);
        }
        i = i + 1;
    }
    None
}

fn trim_all_fields(rows: Vec<Vec<String>>) -> (r: Vec<Vec<String>>)
    ensures
        r.deep_view() == trimmed_rows(rows.deep_view(), Trim::All),
{
    let mut out: Vec<Vec<String>> = Vec::new();
    let mut i: usize = 0;
    while i < rows.len()
        invariant
            i <= rows@.len(),
            out@.len() == i,
            forall|k: int| 0 <= k < i ==> #[trigger] out@[k].deep_view() == Seq::new(
                rows@[k]@.len(),
                |j: int| trim_ascii(rows@[k]@[j]@),
            ),
        decreases rows@.len() - i,
    {
        let row = &rows[i];
        let mut trimmed: Vec<String> = Vec::new();
        let mut j: usize = 0;
        while j < row.len()
            invariant
                j <= row@.len(),
                trimmed@.len() == j,
                forall|m: int| 0 <= m < j ==> #[trigger] trimmed@[m]@ == trim_ascii(row@[m]@),
            decreases row@.len() - j,
        {
            trimmed.push(trim_ascii_str(row[j].as_str()));
            j = j + 1;
        }
        assert(trimmed.deep_view() =~= Seq::new(row@.len(), |j: int| trim_ascii(row@[j]@)));
        out.push(trimmed);
        i = i + 1;
    }
    let ghost want = trimmed_rows(rows.deep_view(), Trim::All);
    assert forall|k: int| 0 <= k < out@.len() implies #[trigger] out.deep_view()[k] == want[k] by {
        assert(rows.deep_view()[k] == rows@[k].deep_view());
        assert(out.deep_view()[k] =~= want[k]);
    }
    assert(out.deep_view() =~= want);
    out
}

/// Turns tokenized rows into the parse result: checks that there is at
/// least one row and that all rows are as wide as the first, then trims
/// the fields when asked to.
pub fn records_to_table(records: Vec<Vec<String>>, trim: Trim) -> (r: Result<
    Vec<Vec<String>>,
    CsvError,
>)
    ensures
        records_result(records.deep_view(), trim, r),
{
    let ghost rows = records.deep_view();
    if records.len() == 0 {
        return Err(CsvError::empty_data());
    }
    if let Some(i) = find_width_mismatch(&records) {
        let e = CsvError::with_message(
            ErrorKind::FieldCountMismatch,
            mismatch_message(i + 1, records[0].len(), records[i].len()),
        );
        proof {
            lemma_first_mismatch_unique(rows, i as int);
        }
        return Err(e);
    }
    match trim {
        Trim::Off => Ok(records),
        Trim::All => Ok(trim_all_fields(records)),
    }
}

/// Parses CSV text into rows of fields.
///
/// Blank input (empty, or whitespace only) is `EmptyData` before anything is
/// tokenized. Otherwise the text is tokenized by the CSV crate, with no
/// header row; what comes of the rows is `records_result`.
pub fn parse_csv_core(input: &str, trim: Trim) -> (r: Result<Vec<Vec<String>>, CsvError>)
    ensures
        is_blank(input@) ==> r is Err && r->Err_0@.kind == ErrorKind::EmptyData
            && r->Err_0@.message == empty_data_text(),
        !is_blank(input@) ==> records_result(csv_records(input@), trim, r),
{
    if is_blank_str(input) {
        return Err(CsvError::empty_data());
    }
    match read_csv_records(input) {
        Ok(records) => records_to_table(records, trim),
        Err(e) => Err(CsvError::from_csv(&e)),
    }
}

/// `parse_csv_core` with the trimming that `options` selects.
pub fn parse_csv_with_options(input: &str, options: &CsvParseOptions) -> (r: Result<
    Vec<Vec<String>>,
    CsvError,
>)
    ensures
        is_blank(input@) ==> r is Err && r->Err_0@.kind == ErrorKind::EmptyData
            && r->Err_0@.message == empty_data_text(),
        !is_blank(input@) ==> records_result(
            csv_records(input@),
            if options.trim {
                Trim::All
            } else {
                Trim::Off
            },
            r,
        ),
{
    let trim = if options.trim {
        Trim::All
    } else {
        Trim::Off
    };
    parse_csv_core(input, trim)
}

/// The check made on a path before a file is read from it: a missing path
/// is "File not found", a path to anything but a regular file is "Path is
/// not a file", both `Io` errors that name the path.
pub fn check_input_path(file_path: &str, exists: bool, is_file: bool) -> (r: Result<
    (),
    CsvError,
>)
    ensures
        !exists ==> r is Err && r->Err_0@.kind == ErrorKind::Io && r->Err_0@.message == "File not found: "@ + file_path@,
        exists && !is_file ==> r is Err && r->Err_0@.kind == ErrorKind::Io && r->Err_0@.message == "Path is not a file: "@ + file_path@,
        exists && is_file ==> r is Ok,
{
    if !exists {
        let mut message = String::from_str("File not found: ");
        message.append(file_path);
        return Err(CsvError::with_message(ErrorKind::Io, message));
    }
    if !is_file {
        let mut message = String::from_str("Path is not a file: ");
        message.append(file_path);
        return Err(CsvError::with_message(ErrorKind::Io, message));
    }
    Ok(())
}

} // verus!
