//! The writer: a table of fields in, CSV text out, after the table's shape
//! has been checked.
use crate::error::{empty_data_text, mismatch_message, mismatch_text, CsvError, ErrorKind};
use crate::reader::{
    find_width_mismatch, is_first_mismatch, is_rectangular, lemma_first_mismatch_unique,
};
use vstd::prelude::*;

verus! {

/// The characters that force a field into quotes: the delimiter, the quote
/// and the two line-ending characters.
pub open spec fn forces_quotes(c: char) -> bool {
    c == ',' || c == '"' || c == '\r' || c == '\n'
}

/// Whether field `f` is written in quotes.
pub open spec fn needs_quotes(f: Seq<char>) -> bool {
    exists|i: int| 0 <= i < f.len() && forces_quotes(#[trigger] f[i])
}

/// `f` with every quote character doubled.
pub open spec fn double_quotes(f: Seq<char>) -> Seq<char>
    decreases f.len(),
{
    if f.len() == 0 {
        f
    } else if f.last() == '"' {
        double_quotes(f.drop_last()) + seq!['"', '"']
    } else {
        double_quotes(f.drop_last()).push(f.last())
    }
}

/// A field as written: in quotes, with its quotes doubled, when it needs
/// them; as it is otherwise.
pub open spec fn encode_field(f: Seq<char>) -> Seq<char> {
    if needs_quotes(f) {
        seq!['"'] + double_quotes(f) + seq!['"']
    } else {
        f
    }
}

/// The written fields of a row, separated by commas.
pub open spec fn join_fields(row: Seq<Seq<char>>) -> Seq<char>
    decreases row.len(),
{
    if row.len() == 0 {
        Seq::empty()
    } else if row.len() == 1 {
        encode_field(row[0])
    } else {
        join_fields(row.drop_last()).push(',') + encode_field(row.last())
    }
}

/// A row as written, ending in a line feed. A row that would otherwise be an
/// empty line (no fields, or one empty field) is written as `""`.
pub open spec fn encode_record(row: Seq<Seq<char>>) -> Seq<char> {
    if join_fields(row).len() == 0 {
        seq!['"', '"', '\n']
    } else {
        join_fields(row).push('\n')
    }
}

/// The CSV text for `rows`: each row as `encode_record` writes it, in order.
pub open spec fn encode_rows(rows: Seq<Seq<Seq<char>>>) -> Seq<char>
    decreases rows.len(),
{
    if rows.len() == 0 {
        Seq::empty()
    } else {
        encode_rows(rows.drop_last()) + encode_record(rows.last())
    }
}

/// Relies on `csv::Writer::write_record` with the writer's defaults: comma
/// delimiter, `"` quotes escaped by doubling, quotes only where a field
/// holds a comma, a quote, `\r` or `\n`, `\n` after each record, and `""`
/// for a record that would otherwise write nothing. Writing into a vector
/// cannot fail, and the writer's own check on record lengths passes on rows
/// that are all as wide as the first, so such rows are always written.
#[verifier::external_body]
fn write_csv_records(rows: &Vec<Vec<String>>) -> (r: Result<String, csv::Error>)
    ensures
        rows@.len() > 0 && is_rectangular(rows.deep_view()) ==> r is Ok,
        r is Ok ==> r->Ok_0@ == encode_rows(rows.deep_view()),
{
    let mut writer = csv::WriterBuilder::new().has_headers(false).from_writer(Vec::new());
    for row in rows.iter() {
        writer.write_record(row)?;
    }
    let bytes = writer.into_inner().map_err(|e| csv::Error::from(e.into_error()))?;
    Ok(String::from_utf8_lossy(&bytes).into_owned())
}

/// Checks that `data` is a table the writer accepts: at least one row, and
/// all rows as wide as the first. Both failures are `InvalidData`.
pub fn validate_rows(data: &Vec<Vec<String>>) -> (r: Result<(), CsvError>)
    ensures
        data@.len() == 0 ==> r is Err && r->Err_0@.kind == ErrorKind::InvalidData
            && r->Err_0@.message == empty_data_text(),
        forall|i: int| #[trigger]
            is_first_mismatch(data.deep_view(), i) ==> r is Err && r->Err_0@.kind
                == ErrorKind::InvalidData && r->Err_0@.message == mismatch_text(
                (i + 1) as nat,
                data.deep_view()[0].len(),
                data.deep_view()[i].len(),
            ),
        data@.len() > 0 && is_rectangular(data.deep_view()) <==> r is Ok,
{
    if data.len() == 0 {
        return Err(CsvError::invalid_data("CSV data is empty"));
    }
    if let Some(i) = find_width_mismatch(data) {
        let ghost rows = data.deep_view();
        assert(rows[i as int] == data@[i as int].deep_view());
        assert(rows[0] == data@[0].deep_view());
        let e = CsvError::with_message(
            ErrorKind::InvalidData,
            mismatch_message(i + 1, data[0].len(), data[i].len()),
        );
        proof {
            lemma_first_mismatch_unique(rows, i as int);
        }
        return Err(e);
    }
    Ok(())
}

/// The CSV text to store for `data`: the table is validated as
/// `validate_rows` says, then written by the CSV crate.
pub fn render_csv(data: &Vec<Vec<String>>) -> (r: Result<String, CsvError>)
    ensures
        data@.len() == 0 ==> r is Err && r->Err_0@.kind == ErrorKind::InvalidData
            && r->Err_0@.message == empty_data_text(),
        forall|i: int| #[trigger]
            is_first_mismatch(data.deep_view(), i) ==> r is Err && r->Err_0@.kind
                == ErrorKind::InvalidData && r->Err_0@.message == mismatch_text(
                (i + 1) as nat,
                data.deep_view()[0].len(),
                data.deep_view()[i].len(),
            ),
        data@.len() > 0 && is_rectangular(data.deep_view()) ==> r is Ok && r->Ok_0@
            == encode_rows(data.deep_view()),
        r is Ok ==> data@.len() > 0 && is_rectangular(data.deep_view()),
{
    match validate_rows(data) {
        Err(e) => Err(e),
        Ok(()) => match write_csv_records(data) {
            Ok(text) => Ok(text),
            Err(e) => Err(CsvError::from_csv(&e)),
        },
    }
}

/// The check made before a file is created: its parent directory must
/// exist, else an `Io` error names the missing directory.
pub fn check_output_parent(parent: &str, parent_exists: bool) -> (r: Result<(), CsvError>)
    ensures
        parent_exists <==> r is Ok,
        !parent_exists ==> r is Err && r->Err_0@.kind == ErrorKind::Io && r->Err_0@.message == "Parent directory does not exist: "@ + parent@,
{
    if !parent_exists {
        let mut message = String::from_str("Parent directory does not exist: ");
        message.append(parent);
        return Err(CsvError::with_message(ErrorKind::Io, message));
    }
    Ok(())
}

/// The error for a file that could not be created: `WritePermission` when
/// permission was denied, else `Io` with the system's `detail`.
pub fn creation_error(file_path: &str, permission_denied: bool, detail: &str) -> (r: CsvError)
    ensures
        permission_denied ==> r@.kind == ErrorKind::WritePermission && r@.message == "Permission denied: "@ + file_path@,
        !permission_denied ==> r@.kind == ErrorKind::Io && r@.message == "Failed to create file '"@ + file_path@ + "': "@ + detail@,
{
    if permission_denied {
        let mut message = String::from_str("Permission denied: ");
        message.append(file_path);
        CsvError::with_message(ErrorKind::WritePermission, message)
    } else {
        let mut message = String::from_str("Failed to create file '");
        message.append(file_path);
        message.append("': ");
        message.append(detail);
        CsvError::with_message(ErrorKind::Io, message)
    }
}

} // verus!
