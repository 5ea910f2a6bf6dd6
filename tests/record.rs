use binance_ingest::record::{boolean, number_upto, ParseError, Row};

fn fields(fs: &[&str]) -> Vec<String> {
    fs.iter().map(|f| f.to_string()).collect()
}

fn bits(x: f32) -> Option<u32> {
    Some(x.to_bits())
}

#[test]
fn decodes_a_trade() {
    let fs = fields(&["42", "1.5", "2", "3", "1704067200000", "True", "false"]);
    let row = Row::decode(&fs, bits(1.5), bits(2.0), bits(3.0)).unwrap();
    assert_eq!(row.id, 42);
    assert_eq!(row.price_bits, 1.5f32.to_bits());
    assert_eq!(row.qty_bits, 2.0f32.to_bits());
    assert_eq!(row.quote_qty_bits, 3.0f32.to_bits());
    assert_eq!(row.time, 1704067200000);
    assert!(row.is_buyer_maker);
    assert!(!row.is_best_match);
}

#[test]
fn booleans_accept_four_spellings() {
    assert_eq!(boolean("true"), Some(true));
    assert_eq!(boolean("True"), Some(true));
    assert_eq!(boolean("false"), Some(false));
    assert_eq!(boolean("False"), Some(false));
    assert_eq!(boolean("TRUE"), None);
    assert_eq!(boolean("1"), None);
    assert_eq!(boolean(""), None);
}

#[test]
fn bad_boolean_is_a_parse_error() {
    let fs = fields(&["1", "1", "1", "1", "5", "yes", "true"]);
    match Row::decode(&fs, bits(1.0), bits(1.0), bits(1.0)) {
        Err(ParseError::Field { column, value }) => {
            assert_eq!(column, 5);
            assert_eq!(value, "yes");
        }
        other => panic!("unexpected {:?}", other),
    }
}

#[test]
fn first_bad_column_is_reported() {
    let fs = fields(&["x", "1", "1", "1", "y", "true", "true"]);
    assert!(matches!(
        Row::decode(&fs, bits(1.0), None, bits(1.0)),
        Err(ParseError::Field { column: 0, .. })
    ));
    let fs = fields(&["7", "p", "1", "1", "5", "true", "true"]);
    assert!(matches!(
        Row::decode(&fs, None, bits(1.0), bits(1.0)),
        Err(ParseError::Field { column: 1, .. })
    ));
}

#[test]
fn wrong_field_count_is_a_parse_error() {
    let fs = fields(&["1", "1", "1", "1", "5", "true"]);
    assert!(matches!(
        Row::decode(&fs, bits(1.0), bits(1.0), bits(1.0)),
        Err(ParseError::FieldCount(6))
    ));
}

#[test]
fn numbers_decimal_and_hex() {
    assert_eq!(number_upto("0", 10), Some(0));
    assert_eq!(number_upto("+17", 100), Some(17));
    assert_eq!(number_upto("0x1F", 100), Some(31));
    assert_eq!(number_upto("4294967295", u32::MAX as u64), Some(4294967295));
    assert_eq!(number_upto("4294967296", u32::MAX as u64), None);
    assert_eq!(number_upto("18446744073709551615", u64::MAX), Some(u64::MAX));
    assert_eq!(number_upto("18446744073709551616", u64::MAX), None);
    assert_eq!(number_upto("", 10), None);
    assert_eq!(number_upto("+", 10), None);
    assert_eq!(number_upto("-1", 10), None);
    assert_eq!(number_upto("1a", 100), None);
    assert_eq!(number_upto("0x", 100), None);
}
