use rbcsv::{check_input_path, parse_csv_core, parse_csv_with_options, CsvParseOptions, ErrorKind, Trim};

#[test]
fn test_parse_csv_core_basic() {
    let csv_data = "a,b,c\n1,2,3";
    let result = parse_csv_core(csv_data, Trim::Off);

    assert!(result.is_ok());
    let records = result.unwrap();
    assert_eq!(records.len(), 2);
    assert_eq!(records[0], vec!["a", "b", "c"]);
    assert_eq!(records[1], vec!["1", "2", "3"]);
}

#[test]
fn test_parse_basic() {
    let csv_data = "a,b,c\n1,2,3";
    let result = parse_csv_core(csv_data, Trim::Off);

    assert!(result.is_ok());
    let records = result.unwrap();
    assert_eq!(records.len(), 2);
    assert_eq!(records[0], vec!["a", "b", "c"]);
    assert_eq!(records[1], vec!["1", "2", "3"]);
}

#[test]
fn test_parse_with_trim_enabled() {
    let csv_data = " a , b , c \n 1 , 2 , 3 ";
    let result = parse_csv_core(csv_data, Trim::All);

    assert!(result.is_ok());
    let records = result.unwrap();
    assert_eq!(records[0], vec!["a", "b", "c"]);
    assert_eq!(records[1], vec!["1", "2", "3"]);
}

#[test]
fn test_parse_with_trim_disabled() {
    let csv_data = " a , b , c \n 1 , 2 , 3 ";
    let result = parse_csv_core(csv_data, Trim::Off);

    assert!(result.is_ok());
    let records = result.unwrap();
    assert_eq!(records[0], vec![" a ", " b ", " c "]);
    assert_eq!(records[1], vec![" 1 ", " 2 ", " 3 "]);
}

#[test]
fn test_parse_csv_file_not_found() {
    let result = check_input_path("non_existent_file.csv", false, false);

    assert!(result.is_err());
    if let Err(e) = result {
        assert!(e.to_string().contains("File not found"));
    }
}

#[test]
fn test_parse_csv_file_directory() {
    let result = check_input_path(".", true, false);

    assert!(result.is_err());
    if let Err(e) = result {
        assert!(e.to_string().contains("Path is not a file"));
    }
}

#[test]
fn input_path_errors_are_io_and_name_the_path() {
    let missing = check_input_path("data/x.csv", false, false).unwrap_err();
    assert_eq!(missing.kind(), ErrorKind::Io);
    assert_eq!(missing.message(), "File not found: data/x.csv");
    assert_eq!(missing.to_string(), "IO Error: File not found: data/x.csv");
    let not_file = check_input_path("data", true, false).unwrap_err();
    assert_eq!(not_file.kind(), ErrorKind::Io);
    assert_eq!(not_file.message(), "Path is not a file: data");
    assert!(check_input_path("data/x.csv", true, true).is_ok());
}

#[test]
fn trim_mode_two_by_two_table() {
    let text = " a , b \n 1 , 2 ";
    let trimmed = parse_csv_core(text, Trim::All).unwrap();
    assert_eq!(trimmed, vec![vec!["a", "b"], vec!["1", "2"]]);
    let kept = parse_csv_core(text, Trim::Off).unwrap();
    assert_eq!(kept, vec![vec![" a ", " b "], vec![" 1 ", " 2 "]]);
}

#[test]
fn trim_applies_inside_quotes() {
    let rows = parse_csv_core("\" x \",y", Trim::All).unwrap();
    assert_eq!(rows, vec![vec!["x", "y"]]);
}

#[test]
fn empty_and_blank_input_is_empty_data() {
    for text in ["", "   ", "\n\n", " \t\r\n "] {
        let e = parse_csv_core(text, Trim::Off).unwrap_err();
        assert_eq!(e.kind(), ErrorKind::EmptyData);
        assert_eq!(e.message(), "CSV data is empty");
    }
}

#[test]
fn uneven_rows_report_first_divergent_line() {
    let e = parse_csv_core("a,b\n1,2\n3\n4,5,6", Trim::Off).unwrap_err();
    assert_eq!(e.kind(), ErrorKind::FieldCountMismatch);
    assert_eq!(e.message(), "Field count mismatch at line 3: expected 2 fields, got 1 fields");
    let e = parse_csv_core("a\nb,c", Trim::All).unwrap_err();
    assert_eq!(e.message(), "Field count mismatch at line 2: expected 1 fields, got 2 fields");
}

#[test]
fn quoted_fields_keep_delimiters_quotes_and_newlines() {
    let rows = parse_csv_core("\"a,b\",\"say \"\"hi\"\"\",\"x\ny\"\nc,d,e", Trim::Off).unwrap();
    assert_eq!(rows, vec![vec!["a,b", "say \"hi\"", "x\ny"], vec!["c", "d", "e"]]);
}

#[test]
fn first_row_is_data_not_header() {
    let rows = parse_csv_core("name,age\nBob,30\n", Trim::Off).unwrap();
    assert_eq!(rows.len(), 2);
    assert_eq!(rows[0], vec!["name", "age"]);
}

#[test]
fn parse_options_select_trimming() {
    let options = CsvParseOptions::default();
    assert!(!options.trim);
    let kept = parse_csv_with_options(" a ", &options).unwrap();
    assert_eq!(kept, vec![vec![" a "]]);
    let trimming = CsvParseOptions { trim: true };
    let trimmed = parse_csv_with_options(" a ", &trimming).unwrap();
    assert_eq!(trimmed, vec![vec!["a"]]);
}
