use rbcsv::CsvValue;

fn double_bits(s: &str) -> Option<u64> {
    s.parse::<f64>().ok().map(f64::to_bits)
}

fn resolve(s: &str) -> CsvValue {
    CsvValue::from_str(s, double_bits(s))
}

fn resolve_trimmed(s: &str) -> CsvValue {
    CsvValue::from_str_trimmed(s, double_bits(s.trim()))
}

#[test]
fn test_from_str_integer() {
    assert_eq!(resolve("123"), CsvValue::Integer(123));
    assert_eq!(resolve("-456"), CsvValue::Integer(-456));
    assert_eq!(resolve("0"), CsvValue::Integer(0));
}

#[test]
fn test_from_str_float() {
    assert_eq!(resolve("123.45"), CsvValue::Float(123.45f64.to_bits()));
    assert_eq!(resolve("-0.67"), CsvValue::Float((-0.67f64).to_bits()));
    assert_eq!(resolve("1.23e-4"), CsvValue::Float(0.000123f64.to_bits()));
    assert_eq!(resolve("3.14159"), CsvValue::Float(3.14159f64.to_bits()));
}

#[test]
fn test_from_str_string() {
    assert_eq!(resolve("hello"), CsvValue::String("hello".to_string()));
    assert_eq!(resolve(""), CsvValue::String("".to_string()));
    assert_eq!(resolve("123abc"), CsvValue::String("123abc".to_string()));
    assert_eq!(resolve("true"), CsvValue::String("true".to_string()));
}

#[test]
fn test_from_str_edge_cases() {
    assert_eq!(resolve("NaN"), CsvValue::String("NaN".to_string()));
    assert_eq!(resolve("Infinity"), CsvValue::String("Infinity".to_string()));

    assert!(matches!(resolve("99999999999999999999"), CsvValue::Float(_)));
}

#[test]
fn test_from_str_trimmed() {
    assert_eq!(resolve_trimmed("  123  "), CsvValue::Integer(123));
    assert_eq!(resolve_trimmed("  45.6  "), CsvValue::Float(45.6f64.to_bits()));
    assert_eq!(resolve_trimmed("  hello  "), CsvValue::String("hello".to_string()));
}

#[test]
fn integer_range_boundaries() {
    assert_eq!(resolve("9223372036854775807"), CsvValue::Integer(i64::MAX));
    assert_eq!(resolve("-9223372036854775808"), CsvValue::Integer(i64::MIN));
    assert_eq!(resolve("9223372036854775808"), CsvValue::Float(9223372036854775808f64.to_bits()));
    assert_eq!(resolve("42"), CsvValue::Integer(42));
    assert_eq!(resolve("-7"), CsvValue::Integer(-7));
    assert_eq!(resolve("007"), CsvValue::Integer(7));
}

#[test]
fn large_integer_text_is_a_double() {
    assert_eq!(
        resolve("99999999999999999999"),
        CsvValue::Float(99999999999999999999f64.to_bits())
    );
}

#[test]
fn non_finite_readings_stay_text() {
    assert_eq!(resolve("-Infinity"), CsvValue::String("-Infinity".to_string()));
    assert_eq!(resolve("inf"), CsvValue::String("inf".to_string()));
    assert_eq!(resolve("1e400"), CsvValue::String("1e400".to_string()));
    assert_eq!(
        CsvValue::from_str("x", Some(f64::NAN.to_bits())),
        CsvValue::String("x".to_string())
    );
}

#[test]
fn padded_numbers_are_text_unless_trimmed() {
    assert_eq!(resolve(" 1 "), CsvValue::String(" 1 ".to_string()));
    assert_eq!(resolve_trimmed(" 1 "), CsvValue::Integer(1));
}

#[test]
fn sign_rules_for_integers() {
    assert_eq!(resolve("-"), CsvValue::String("-".to_string()));
    assert_eq!(resolve("+5"), CsvValue::Float(5.0f64.to_bits()));
    assert_eq!(resolve("--5"), CsvValue::String("--5".to_string()));
}

#[test]
fn resolve_table_resolves_every_field() {
    let rows = vec![
        vec!["id".to_string(), "score".to_string()],
        vec!["7".to_string(), "2.5".to_string()],
    ];
    let readings: Vec<Vec<Option<u64>>> =
        rows.iter().map(|r| r.iter().map(|f| double_bits(f)).collect()).collect();
    let table = rbcsv::resolve_table(&rows, &readings);
    assert_eq!(
        table,
        vec![
            vec![CsvValue::String("id".to_string()), CsvValue::String("score".to_string())],
            vec![CsvValue::Integer(7), CsvValue::Float(2.5f64.to_bits())],
        ]
    );
}

#[test]
fn resolve_table_treats_missing_readings_as_none() {
    let rows = vec![vec!["1.5".to_string(), "8".to_string()]];
    let table = rbcsv::resolve_table(&rows, &Vec::new());
    assert_eq!(table, vec![vec![CsvValue::String("1.5".to_string()), CsvValue::Integer(8)]]);
}
