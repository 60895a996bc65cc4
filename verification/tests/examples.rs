use json_to_csv::config::{ConversionConfig, QuotePolicy};
use json_to_csv::conversion::convert;
use json_to_csv::error::ConversionError;
use json_to_csv::json::load;
use json_to_csv::table::tabularize;

fn strings(items: &[&str]) -> Vec<String> {
    items.iter().map(|s| s.to_string()).collect()
}

#[test]
fn array_of_two_objects_with_defaults() {
    let config = ConversionConfig::default();
    let done = convert("[{\"a\":1,\"b\":\"x\"},{\"a\":2,\"b\":\"y\"}]", &Vec::new(), &config).unwrap();
    assert_eq!(done.table.header, strings(&["a", "b"]));
    // A string value keeps its quotes in the cell.
    assert_eq!(done.table.rows, vec![strings(&["1", "\"x\""]), strings(&["2", "\"y\""])]);
    assert_eq!(done.table.preview, done.table.rows);
    assert_eq!(done.csv, "a,b\n1,\"\"\"x\"\"\"\n2,\"\"\"y\"\"\"\n");
}

#[test]
fn array_of_two_objects_with_numbers_only() {
    let config = ConversionConfig::default();
    let done = convert("[{\"a\":1,\"b\":10},{\"a\":2,\"b\":20}]", &Vec::new(), &config).unwrap();
    assert_eq!(done.csv, "a,b\n1,10\n2,20\n");
}

#[test]
fn single_object_with_defaults() {
    let config = ConversionConfig::default();
    let done = convert("{\"a\":1,\"b\":2}", &Vec::new(), &config).unwrap();
    assert_eq!(done.table.header, strings(&["a", "b"]));
    assert_eq!(done.table.rows, vec![strings(&["1", "2"])]);
    assert_eq!(done.csv, "a,b\n1,2\n");
}

#[test]
fn heterogeneous_keys_follow_the_first_element() {
    let config = ConversionConfig::default();
    let done = convert("[{\"a\":1},{\"b\":2}]", &Vec::new(), &config).unwrap();
    assert_eq!(done.table.header, strings(&["a"]));
    assert_eq!(done.table.rows, vec![strings(&["1"]), strings(&[""])]);
    // A record that is one empty cell is written as a pair of quotes.
    assert_eq!(done.csv, "a\n1\n\"\"\n");
}

#[test]
fn bare_scalar_is_unsupported() {
    let config = ConversionConfig::default();
    let outcome = convert("42", &Vec::new(), &config);
    assert!(matches!(outcome, Err(ConversionError::UnsupportedStructure)));
    let table = tabularize(&load("42").unwrap(), &Vec::new(), 100);
    assert_eq!(table.header.len(), 0);
    assert_eq!(table.rows.len(), 0);
    assert_eq!(table.preview.len(), 0);
}

#[test]
fn selected_columns_override_source_order() {
    let config = ConversionConfig::default();
    let done = convert("[{\"a\":1,\"b\":2}]", &strings(&["b", "a"]), &config).unwrap();
    assert_eq!(done.table.header, strings(&["b", "a"]));
    assert_eq!(done.table.rows, vec![strings(&["2", "1"])]);
    assert_eq!(done.csv, "b,a\n2,1\n");
}

#[test]
fn heterogeneous_keys_under_the_never_policy() {
    let mut config = ConversionConfig::default();
    config.quote_policy = QuotePolicy::Never;
    let done = convert("[{\"a\":1},{\"b\":2}]", &Vec::new(), &config).unwrap();
    assert_eq!(done.table.rows, vec![strings(&["1"]), strings(&[""])]);
    // Nothing is added under the never-quote policy: the empty row is an empty line.
    assert_eq!(done.csv, "a\n1\n\n");
    let quoted = convert("[{\"a\":\"x,y\"}]", &Vec::new(), &config).unwrap();
    assert_eq!(quoted.csv, "a\n\"x,y\"\n");
}

#[test]
fn the_same_input_gives_the_same_outcome() {
    let config = ConversionConfig::default();
    for source in ["[{\"a\":1,\"b\":\"x\"},{\"a\":2}]", "{\"k\":[1,2]}", "42", "[", "[]"] {
        let first = convert(source, &strings(&["a"]), &config);
        let second = convert(source, &strings(&["a"]), &config);
        match (first, second) {
            (Ok(one), Ok(two)) => {
                assert_eq!(one.csv.as_bytes(), two.csv.as_bytes());
                assert_eq!(one.table.header, two.table.header);
                assert_eq!(one.table.rows, two.table.rows);
                assert_eq!(one.table.preview, two.table.preview);
            }
            (Err(one), Err(two)) => assert_eq!(one, two),
            _ => panic!("two conversions of {} differ", source),
        }
    }
}
