//! The library's error: a kind out of a closed set and a readable message.
use crate::text::{decimal, push_decimal};
use vstd::prelude::*;

verus! {

#[verifier::external_type_specification]
#[verifier::external_body]
pub struct ExCsvCrateError(csv::Error);

/// What went wrong, as a closed set of kinds.
#[derive(Debug, Clone, Copy, PartialEq, Eq, Structural)]
pub enum ErrorKind {
    /// A file could not be found, opened, read or written.
    Io,
    /// The CSV text could not be tokenized.
    Parse,
    /// The source bytes were not valid UTF-8.
    Encoding,
    /// A parsed row has another number of fields than the first row.
    FieldCountMismatch,
    /// There was nothing to parse.
    EmptyData,
    /// The target file could not be created for lack of permission.
    WritePermission,
    /// Rows handed to the writer do not form a table.
    InvalidData,
    /// Anything else.
    Other,
}

/// An error of the codec: its kind and a message for people.
#[derive(Debug, Clone)]
pub struct CsvError {
    message: String,
    kind: ErrorKind,
}

/// What a `CsvError` holds, as mathematical values.
pub struct CsvErrorView {
    pub kind: ErrorKind,
    pub message: Seq<char>,
}

impl View for CsvError {
    type V = CsvErrorView;

    closed spec fn view(&self) -> CsvErrorView {
        CsvErrorView { kind: self.kind, message: self.message@ }
    }
}

/// The heading that the rendered text of an error of kind `k` starts with.
pub open spec fn kind_label(k: ErrorKind) -> Seq<char> {
    match k {
        ErrorKind::Io => "IO Error: "@,
        ErrorKind::Parse => "Parse Error: "@,
        ErrorKind::Encoding => "Encoding Error: "@,
        ErrorKind::FieldCountMismatch => "Field Count Mismatch: "@,
        ErrorKind::EmptyData => "Empty Data: "@,
        ErrorKind::WritePermission => "Write Permission Error: "@,
        ErrorKind::InvalidData => "Invalid Data Error: "@,
        ErrorKind::Other => "Error: "@,
    }
}

/// The message of `CsvError::field_count_mismatch`.
pub open spec fn expected_fields_text(expected: nat, actual: nat) -> Seq<char> {
    "Expected "@ + decimal(expected) + " fields, but got "@ + decimal(actual)
}

/// The message of `CsvError::empty_data`.
pub open spec fn empty_data_text() -> Seq<char> {
    "CSV data is empty"@
}

/// The message for a row whose width differs from the first row's: the
/// row's 1-based line, the expected and the actual number of fields.
pub open spec fn mismatch_text(line: nat, expected: nat, actual: nat) -> Seq<char> {
    "Field count mismatch at line "@ + decimal(line) + ": expected "@ + decimal(expected)
        + " fields, got "@ + decimal(actual) + " fields"@
}

/// Builds `mismatch_text(line, expected, actual)`.
pub fn mismatch_message(line: usize, expected: usize, actual: usize) -> (r: String)
    ensures
        r@ == mismatch_text(line as nat, expected as nat, actual as nat),
{
    let mut out = String::from_str("Field count mismatch at line ");
    push_decimal(&mut out, line);
    out.append(": expected ");
    push_decimal(&mut out, expected);
    out.append(" fields, got ");
    push_decimal(&mut out, actual);
    out.append(" fields");
    out
}

/// Whether an error of kind `k` can come out of the CSV crate's reader or
/// writer.
pub open spec fn is_csv_crate_kind(k: ErrorKind) -> bool {
    k == ErrorKind::Io || k == ErrorKind::Encoding || k == ErrorKind::FieldCountMismatch || k
        == ErrorKind::Parse
}

/// Which variant of `csv::ErrorKind` an error of the CSV crate is.
#[derive(Debug, Clone, Copy, PartialEq, Eq, Structural)]
pub enum CsvCrateErrorTag {
    Io,
    Utf8,
    UnequalLengths,
    Seek,
    Serialize,
    Deserialize,
    /// A variant added to the CSV crate after the ones above.
    Unknown,
}

/// The library's kind for an error of the CSV crate: I/O stays I/O, invalid
/// UTF-8 is an encoding error, rows of unequal length are a field-count
/// mismatch, and everything else is a parse error.
pub open spec fn kind_for_tag(tag: CsvCrateErrorTag) -> ErrorKind {
    match tag {
        CsvCrateErrorTag::Io => ErrorKind::Io,
        CsvCrateErrorTag::Utf8 => ErrorKind::Encoding,
        CsvCrateErrorTag::UnequalLengths => ErrorKind::FieldCountMismatch,
        _ => ErrorKind::Parse,
    }
}

/// Relies on `csv::Error::kind`: the variant of `csv::ErrorKind`, one arm
/// each (the enum is non-exhaustive, hence `Unknown`).
#[verifier::external_body]
fn csv_error_tag(e: &csv::Error) -> (r: CsvCrateErrorTag) {
    match e.kind() {
        csv::ErrorKind::Io(_) => CsvCrateErrorTag::Io,
        csv::ErrorKind::Utf8 { .. } => CsvCrateErrorTag::Utf8,
        csv::ErrorKind::UnequalLengths { .. } => CsvCrateErrorTag::UnequalLengths,
        csv::ErrorKind::Seek => CsvCrateErrorTag::Seek,
        csv::ErrorKind::Serialize(_) => CsvCrateErrorTag::Serialize,
        csv::ErrorKind::Deserialize { .. } => CsvCrateErrorTag::Deserialize,
        _ => CsvCrateErrorTag::Unknown,
    }
}

/// Relies on `csv::Error`'s `Display`: the crate's own description.
#[verifier::external_body]
fn csv_error_text(e: &csv::Error) -> (r: String) {
    e.to_string()
}

impl CsvError {
    pub fn new(kind: ErrorKind, message: &str) -> (r: Self)
        ensures
            r@.kind == kind,
            r@.message == message@,
    {
        CsvError { message: String::from_str(message), kind }
    }

    pub fn io(message: &str) -> (r: Self)
        ensures
            r@.kind == ErrorKind::Io,
            r@.message == message@,
    {
        Self::new(ErrorKind::Io, message)
    }

    pub fn parse(message: &str) -> (r: Self)
        ensures
            r@.kind == ErrorKind::Parse,
            r@.message == message@,
    {
        Self::new(ErrorKind::Parse, message)
    }

    pub fn encoding(message: &str) -> (r: Self)
        ensures
            r@.kind == ErrorKind::Encoding,
            r@.message == message@,
    {
        Self::new(ErrorKind::Encoding, message)
    }

    /// A field-count error that names the expected and the actual count.
    pub fn field_count_mismatch(expected: usize, actual: usize) -> (r: Self)
        ensures
            r@.kind == ErrorKind::FieldCountMismatch,
            r@.message == expected_fields_text(expected as nat, actual as nat),
    {
        let mut message = String::from_str("Expected ");
        push_decimal(&mut message, expected);
        message.append(" fields, but got ");
        push_decimal(&mut message, actual);
        CsvError { message, kind: ErrorKind::FieldCountMismatch }
    }

    pub fn empty_data() -> (r: Self)
        ensures
            r@.kind == ErrorKind::EmptyData,
            r@.message == empty_data_text(),
    {
        Self::new(ErrorKind::EmptyData, "CSV data is empty")
    }

    pub fn write_permission(message: &str) -> (r: Self)
        ensures
            r@.kind == ErrorKind::WritePermission,
            r@.message == message@,
    {
        Self::new(ErrorKind::WritePermission, message)
    }

    pub fn invalid_data(message: &str) -> (r: Self)
        ensures
            r@.kind == ErrorKind::InvalidData,
            r@.message == message@,
    {
        Self::new(ErrorKind::InvalidData, message)
    }

    /// An error of the given kind that takes over an already built message.
    pub fn with_message(kind: ErrorKind, message: String) -> (r: Self)
        ensures
            r@.kind == kind,
            r@.message == message@,
    {
        CsvError { message, kind }
    }

    /// The error for an error of the CSV crate of variant `tag` whose
    /// description is `text`.
    pub fn from_csv_parts(tag: CsvCrateErrorTag, text: String) -> (r: Self)
        ensures
            r@.kind == kind_for_tag(tag),
            r@.message == text@,
    {
        let kind = match tag {
            CsvCrateErrorTag::Io => ErrorKind::Io,
            CsvCrateErrorTag::Utf8 => ErrorKind::Encoding,
            CsvCrateErrorTag::UnequalLengths => ErrorKind::FieldCountMismatch,
            CsvCrateErrorTag::Seek => ErrorKind::Parse,
            CsvCrateErrorTag::Serialize => ErrorKind::Parse,
            CsvCrateErrorTag::Deserialize => ErrorKind::Parse,
            CsvCrateErrorTag::Unknown => ErrorKind::Parse,
        };
        Self::with_message(kind, text)
    }

    /// The error that stands for an error of the CSV crate: its variant
    /// decides the kind, as `from_csv_parts` states, and its description is
    /// the message.
    pub fn from_csv(e: &csv::Error) -> (r: Self)
        ensures
            is_csv_crate_kind(r@.kind),
    {
        Self::from_csv_parts(csv_error_tag(e), csv_error_text(e))
    }

    pub fn kind(&self) -> (r: ErrorKind)
        ensures
            r == self@.kind,
    {
        self.kind
    }

    pub fn message(&self) -> (r: &str)
        ensures
            r@ == self@.message,
    {
        self.message.as_str()
    }

    /// The error as text: a heading for its kind, then its message.
    pub fn to_string(&self) -> (r: String)
        ensures
            r@ == kind_label(self@.kind) + self@.message,
    {
        let label = match self.kind {
            ErrorKind::Io => "IO Error: ",
            ErrorKind::Parse => "Parse Error: ",
            ErrorKind::Encoding => "Encoding Error: ",
            ErrorKind::FieldCountMismatch => "Field Count Mismatch: ",
            ErrorKind::EmptyData => "Empty Data: ",
            ErrorKind::WritePermission => "Write Permission Error: ",
            ErrorKind::InvalidData => "Invalid Data Error: ",
            ErrorKind::Other => "Error: ",
        };
        let mut out = String::from_str(label);
        out.append(self.message.as_str());
        out
    }
}

} // verus!
