use rbcsv::error::CsvCrateErrorTag;
use rbcsv::{CsvError, ErrorKind};

#[test]
fn constructors_set_kind_and_message() {
    let cases = [
        (CsvError::io("disk"), ErrorKind::Io, "IO Error: disk"),
        (CsvError::parse("bad"), ErrorKind::Parse, "Parse Error: bad"),
        (CsvError::encoding("utf8"), ErrorKind::Encoding, "Encoding Error: utf8"),
        (CsvError::empty_data(), ErrorKind::EmptyData, "Empty Data: CSV data is empty"),
        (CsvError::write_permission("no"), ErrorKind::WritePermission, "Write Permission Error: no"),
        (CsvError::invalid_data("shape"), ErrorKind::InvalidData, "Invalid Data Error: shape"),
        (CsvError::new(ErrorKind::Other, "misc"), ErrorKind::Other, "Error: misc"),
    ];
    for (e, kind, text) in cases {
        assert_eq!(e.kind(), kind);
        assert_eq!(e.to_string(), text);
    }
}

#[test]
fn field_count_mismatch_names_both_counts() {
    let e = CsvError::field_count_mismatch(3, 12);
    assert_eq!(e.kind(), ErrorKind::FieldCountMismatch);
    assert_eq!(e.message(), "Expected 3 fields, but got 12");
    assert_eq!(e.to_string(), "Field Count Mismatch: Expected 3 fields, but got 12");
    let e = CsvError::field_count_mismatch(0, 100);
    assert_eq!(e.message(), "Expected 0 fields, but got 100");
}

#[test]
fn csv_crate_error_tags_map_to_kinds() {
    let cases = [
        (CsvCrateErrorTag::Io, ErrorKind::Io),
        (CsvCrateErrorTag::Utf8, ErrorKind::Encoding),
        (CsvCrateErrorTag::UnequalLengths, ErrorKind::FieldCountMismatch),
        (CsvCrateErrorTag::Seek, ErrorKind::Parse),
        (CsvCrateErrorTag::Serialize, ErrorKind::Parse),
        (CsvCrateErrorTag::Deserialize, ErrorKind::Parse),
        (CsvCrateErrorTag::Unknown, ErrorKind::Parse),
    ];
    for (tag, kind) in cases {
        let e = CsvError::from_csv_parts(tag, "described".to_string());
        assert_eq!(e.kind(), kind);
        assert_eq!(e.message(), "described");
    }
}
