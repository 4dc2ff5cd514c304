//! A CSV codec: reads comma-separated text into rows of fields, resolves a
//! field's text into an integer, a double or a string, and renders rows back
//! into CSV text.
pub mod error;
pub mod reader;
pub mod text;
pub mod value;
pub mod writer;

pub use error::{CsvError, ErrorKind};
pub use reader::{
    check_input_path, parse_csv_core, parse_csv_with_options, records_to_table, CsvParseOptions,
    Trim,
};
pub use text::escape_sanitize;
pub use writer::{check_output_parent, creation_error, render_csv, validate_rows};
pub use value::{resolve_table, CsvValue};
