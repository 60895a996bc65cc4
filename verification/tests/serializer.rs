use json_to_csv::config::{ConversionConfig, QuotePolicy};
use json_to_csv::error::ConversionError;
use json_to_csv::serializer::{append_record, serialize, text_of_bytes};

fn strings(items: &[&str]) -> Vec<String> {
    items.iter().map(|s| s.to_string()).collect()
}

fn columns(count: usize) -> Vec<String> {
    (0..count).map(|i| format!("c{}", i)).collect()
}

fn config(delimiter: char, policy: QuotePolicy, include_header: bool) -> ConversionConfig {
    ConversionConfig { delimiter, quote_policy: policy, include_header, row_cap_for_preview: 100 }
}

#[test]
fn default_settings() {
    let defaults = ConversionConfig::default();
    assert_eq!(defaults.delimiter, ',');
    assert_eq!(defaults.quote_policy, QuotePolicy::WhenNeeded);
    assert!(defaults.include_header);
    assert_eq!(defaults.row_cap_for_preview, 100);
    assert_eq!(defaults.delimiter_byte(), b',');
}

#[test]
fn quote_switch_maps_to_policy() {
    assert_eq!(QuotePolicy::from_switch(true), QuotePolicy::WhenNeeded);
    assert_eq!(QuotePolicy::from_switch(false), QuotePolicy::Never);
}

#[test]
fn delimiter_byte_is_first_byte_of_utf8_form() {
    assert_eq!(config(';', QuotePolicy::Never, true).delimiter_byte(), b';');
    assert_eq!(config('\t', QuotePolicy::Never, true).delimiter_byte(), 9);
    assert_eq!(config('\u{7f}', QuotePolicy::Never, true).delimiter_byte(), 0x7f);
    assert_eq!(config('\u{80}', QuotePolicy::Never, true).delimiter_byte(), 0xC2);
    assert_eq!(config('é', QuotePolicy::Never, true).delimiter_byte(), 0xC3);
    assert_eq!(config('\u{7ff}', QuotePolicy::Never, true).delimiter_byte(), 0xDF);
    assert_eq!(config('\u{800}', QuotePolicy::Never, true).delimiter_byte(), 0xE0);
    assert_eq!(config('€', QuotePolicy::Never, true).delimiter_byte(), 0xE2);
    assert_eq!(config('\u{ffff}', QuotePolicy::Never, true).delimiter_byte(), 0xEF);
    assert_eq!(config('\u{10000}', QuotePolicy::Never, true).delimiter_byte(), 0xF0);
    assert_eq!(config('😀', QuotePolicy::Never, true).delimiter_byte(), 0xF0);
    assert_eq!(config('\u{10ffff}', QuotePolicy::Never, true).delimiter_byte(), 0xF4);
}

#[test]
fn header_is_written_first_iff_asked_for() {
    let header = strings(&["a", "b"]);
    let rows = vec![strings(&["1", "2"]), strings(&["3", "4"])];
    let with = serialize(&header, &rows, &config(',', QuotePolicy::WhenNeeded, true)).unwrap();
    assert_eq!(with, "a,b\n1,2\n3,4\n");
    let without = serialize(&header, &rows, &config(',', QuotePolicy::WhenNeeded, false)).unwrap();
    assert_eq!(without, "1,2\n3,4\n");
}

#[test]
fn nothing_to_write_gives_empty_text() {
    let text = serialize(&strings(&["a"]), &Vec::new(), &config(',', QuotePolicy::WhenNeeded, false));
    assert_eq!(text.unwrap(), "");
}

#[test]
fn header_alone() {
    let text = serialize(&strings(&["a", "b"]), &Vec::new(), &config(',', QuotePolicy::WhenNeeded, true));
    assert_eq!(text.unwrap(), "a,b\n");
}

#[test]
fn other_delimiters() {
    let header = strings(&["a", "b"]);
    let rows = vec![strings(&["1;x", "2,y"])];
    let semicolon = serialize(&header, &rows, &config(';', QuotePolicy::WhenNeeded, true)).unwrap();
    assert_eq!(semicolon, "a;b\n\"1;x\";2,y\n");
    let tab = serialize(&header, &rows, &config('\t', QuotePolicy::WhenNeeded, true)).unwrap();
    assert_eq!(tab, "a\tb\n1;x\t2,y\n");
    let tabbed = vec![strings(&["1\tx", "y"])];
    let tab = serialize(&header, &tabbed, &config('\t', QuotePolicy::WhenNeeded, false)).unwrap();
    assert_eq!(tab, "\"1\tx\"\ty\n");
}

#[test]
fn cells_that_need_quotes_are_quoted_and_their_quotes_doubled() {
    let rows = vec![strings(&["plain", "a,b", "say \"hi\"", "two\nlines", "cr\rhere", "\"", ""])];
    let text = serialize(&columns(7), &rows, &config(',', QuotePolicy::WhenNeeded, false)).unwrap();
    assert_eq!(
        text,
        "plain,\"a,b\",\"say \"\"hi\"\"\",\"two\nlines\",\"cr\rhere\",\"\"\"\",\n"
    );
}

#[test]
fn cells_without_special_bytes_stay_bare() {
    let rows = vec![strings(&["a b", " lead", "trail ", "semi;colon", "tab\there", "'single'", "ünï"])];
    let text = serialize(&columns(7), &rows, &config(',', QuotePolicy::WhenNeeded, false)).unwrap();
    assert_eq!(text, "a b, lead,trail ,semi;colon,tab\there,'single',ünï\n");
}

#[test]
fn never_policy_writes_every_cell_as_it_is() {
    let rows = vec![strings(&["a,b", "say \"hi\"", "two\nlines", "x"])];
    let text = serialize(&columns(4), &rows, &config(',', QuotePolicy::Never, false)).unwrap();
    assert_eq!(text, "a,b,say \"hi\",two\nlines,x\n");
    let quotes = vec![strings(&["\"", "\"\""]), strings(&["", "\r"])];
    let text = serialize(&columns(2), &quotes, &config(';', QuotePolicy::Never, true)).unwrap();
    assert_eq!(text, "c0;c1\n\";\"\"\n;\r\n");
}

#[test]
fn blank_record_is_a_pair_of_quotes_when_quoting() {
    let settings = config(',', QuotePolicy::WhenNeeded, false);
    let one_empty = vec![strings(&[""]), strings(&["x"]), strings(&[""])];
    assert_eq!(serialize(&columns(1), &one_empty, &settings).unwrap(), "\"\"\nx\n\"\"\n");
    let no_cell: Vec<Vec<String>> = vec![Vec::new()];
    assert_eq!(serialize(&Vec::new(), &no_cell, &settings).unwrap(), "\"\"\n");
    let two_empty = vec![strings(&["", ""])];
    assert_eq!(serialize(&columns(2), &two_empty, &settings).unwrap(), ",\n");
    let empty_header =
        serialize(&Vec::new(), &Vec::new(), &config(',', QuotePolicy::WhenNeeded, true)).unwrap();
    assert_eq!(empty_header, "\"\"\n");
}

#[test]
fn blank_record_is_a_line_feed_alone_under_the_never_policy() {
    let settings = config(',', QuotePolicy::Never, false);
    let one_empty = vec![strings(&[""]), strings(&["x"]), strings(&[""])];
    assert_eq!(serialize(&columns(1), &one_empty, &settings).unwrap(), "\nx\n\n");
    let no_cell: Vec<Vec<String>> = vec![Vec::new()];
    assert_eq!(serialize(&Vec::new(), &no_cell, &settings).unwrap(), "\n");
    let two_empty = vec![strings(&["", ""])];
    assert_eq!(serialize(&columns(2), &two_empty, &settings).unwrap(), ",\n");
    let empty_header =
        serialize(&Vec::new(), &Vec::new(), &config(',', QuotePolicy::Never, true)).unwrap();
    assert_eq!(empty_header, "\n");
    let header_then_blank =
        serialize(&strings(&[""]), &vec![strings(&[""])], &config(',', QuotePolicy::Never, true));
    assert_eq!(header_then_blank.unwrap(), "\n\n");
}

#[test]
fn rows_that_do_not_fit_the_header_are_refused() {
    for policy in [QuotePolicy::WhenNeeded, QuotePolicy::Never] {
        for include_header in [true, false] {
            let settings = config(',', policy, include_header);
            let header = strings(&["a", "b"]);
            let short = vec![strings(&["1", "2"]), strings(&["3"])];
            assert_eq!(serialize(&header, &short, &settings), Err(ConversionError::Serialize));
            let long = vec![strings(&["1", "2", "3"])];
            assert_eq!(serialize(&header, &long, &settings), Err(ConversionError::Serialize));
            let none = vec![strings(&["1"])];
            assert_eq!(serialize(&Vec::new(), &none, &settings), Err(ConversionError::Serialize));
            let fitting = vec![strings(&["1", "2"]), strings(&["3", "4"])];
            assert!(serialize(&header, &fitting, &settings).is_ok());
        }
    }
}

#[test]
fn a_long_cell_is_written_whole() {
    let long = "x\"y,".repeat(20_000);
    let rows = vec![vec![long.clone(), "end".to_string()]];
    let text = serialize(&columns(2), &rows, &config(',', QuotePolicy::WhenNeeded, false)).unwrap();
    let expected = format!("\"{}\",end\n", long.replace('"', "\"\""));
    assert_eq!(text, expected);
}

#[test]
fn serializing_twice_gives_the_same_text() {
    let header = strings(&["k", "v"]);
    let rows = vec![strings(&["a,1", "\"q\""]), strings(&["", "z"])];
    for policy in [QuotePolicy::WhenNeeded, QuotePolicy::Never] {
        let settings = config(';', policy, true);
        let first = serialize(&header, &rows, &settings).unwrap();
        let second = serialize(&header, &rows, &settings).unwrap();
        assert_eq!(first.as_bytes(), second.as_bytes());
    }
}

#[test]
fn delimiter_outside_ascii_breaks_the_text() {
    let rows = vec![strings(&["1", "2"])];
    let outcome = serialize(&columns(2), &rows, &config('é', QuotePolicy::WhenNeeded, false));
    assert_eq!(outcome, Err(ConversionError::Serialize));
    // A single column needs no delimiter, so the text stays valid.
    let single = vec![strings(&["1"])];
    let outcome = serialize(&columns(1), &single, &config('é', QuotePolicy::WhenNeeded, false));
    assert_eq!(outcome.unwrap(), "1\n");
}

#[test]
fn bytes_become_text_exactly_when_they_are_utf8() {
    assert_eq!(text_of_bytes(b"a,b\n".to_vec()).unwrap(), "a,b\n");
    assert_eq!(text_of_bytes("ü€😀".as_bytes().to_vec()).unwrap(), "ü€😀");
    assert_eq!(text_of_bytes(Vec::new()).unwrap(), "");
    assert_eq!(text_of_bytes(vec![b'a', 0xC3, b'b']), Err(ConversionError::Serialize));
    assert_eq!(text_of_bytes(vec![0xFF]), Err(ConversionError::Serialize));
    assert_eq!(text_of_bytes(vec![0xED, 0xA0, 0x80]), Err(ConversionError::Serialize));
    assert_eq!(text_of_bytes(vec![0xC0, 0x80]), Err(ConversionError::Serialize));
}

#[test]
fn a_written_record_is_appended_and_a_failed_write_is_reported() {
    let mut out = b"a\n".to_vec();
    assert_eq!(append_record(&mut out, Ok(b"1\n".to_vec())), Ok(()));
    assert_eq!(out, b"a\n1\n".to_vec());
    let failure = csv::Error::from(std::io::Error::new(std::io::ErrorKind::Other, "sink"));
    assert_eq!(append_record(&mut out, Err(failure)), Err(ConversionError::Serialize));
    assert_eq!(out, b"a\n1\n".to_vec());
}
