use json_to_csv::error::ConversionError;
use json_to_csv::json::load;
use json_to_csv::table::tabularize;

#[test]
fn malformed_text_gives_a_parse_error_with_position() {
    let error = match load("{\"a\":}") {
        Ok(_) => panic!("malformed text was accepted"),
        Err(error) => error,
    };
    match &error {
        ConversionError::Parse(reason) => {
            assert_eq!(reason, "expected value at line 1 column 6");
        }
        other => panic!("unexpected error {:?}", other),
    }
    assert_eq!(error.message(), "JSON parsing error: expected value at line 1 column 6");
}

#[test]
fn empty_input_is_a_parse_error() {
    match load("") {
        Err(ConversionError::Parse(reason)) => {
            assert_eq!(reason, "EOF while parsing a value at line 1 column 0")
        }
        _ => panic!("empty input was accepted"),
    }
}

#[test]
fn trailing_text_is_a_parse_error() {
    assert!(matches!(load("{} {}"), Err(ConversionError::Parse(_))));
    assert!(matches!(load("[1,2"), Err(ConversionError::Parse(_))));
}

#[test]
fn surrounding_whitespace_is_accepted() {
    let doc = load(" \n [ {\"a\" : 1 } ] \n").unwrap();
    let table = tabularize(&doc, &Vec::new(), 10);
    assert_eq!(table.rows, vec![vec!["1".to_string()]]);
}

#[test]
fn error_messages() {
    assert_eq!(ConversionError::UnsupportedStructure.message(), "Unsupported JSON structure");
    assert_eq!(
        ConversionError::Serialize.message(),
        "CSV generation error: the table is ragged or its text is not UTF-8"
    );
    assert_eq!(ConversionError::Parse("why".to_string()).message(), "JSON parsing error: why");
}
