use json_to_csv::error::ConversionError;
use json_to_csv::progress::{row_permille, ConversionProgress};

#[test]
fn milestones() {
    let idle = ConversionProgress::idle();
    assert_eq!((idle.status.as_str(), idle.permille, idle.in_progress), ("", 0, false));
    let started = ConversionProgress::started();
    assert_eq!(
        (started.status.as_str(), started.permille, started.in_progress),
        ("Starting conversion...", 0, true)
    );
    let parsing = ConversionProgress::parsing();
    assert_eq!(
        (parsing.status.as_str(), parsing.permille, parsing.in_progress),
        ("Parsing JSON...", 200, true)
    );
    let converting = ConversionProgress::converting(0, 8);
    assert_eq!(
        (converting.status.as_str(), converting.permille, converting.in_progress),
        ("Converting to CSV...", 400, true)
    );
    let finalizing = ConversionProgress::finalizing();
    assert_eq!(
        (finalizing.status.as_str(), finalizing.permille, finalizing.in_progress),
        ("Finalizing...", 900, true)
    );
    let completed = ConversionProgress::completed();
    assert_eq!(
        (completed.status.as_str(), completed.permille, completed.in_progress),
        ("Conversion completed successfully", 1000, false)
    );
}

#[test]
fn fraction_grows_with_the_elements_converted() {
    assert_eq!(row_permille(0, 3), 400);
    assert_eq!(row_permille(1, 3), 566);
    assert_eq!(row_permille(2, 3), 733);
    assert_eq!(row_permille(3, 3), 900);
    assert_eq!(row_permille(1, 2), 650);
    assert_eq!(row_permille(1, 1000), 400);
    assert_eq!(row_permille(2, 1000), 401);
    assert_eq!(row_permille(999, 1000), 899);
    assert_eq!(ConversionProgress::converting(5, 10).permille, 650);
}

#[test]
fn fraction_at_the_edges() {
    assert_eq!(row_permille(0, 0), 900);
    assert_eq!(row_permille(7, 3), 900);
    assert_eq!(row_permille(usize::MAX, usize::MAX), 900);
    assert_eq!(row_permille(usize::MAX - 1, usize::MAX), 899);
    assert_eq!(row_permille(usize::MAX / 2, usize::MAX), 649);
}

#[test]
fn fraction_never_runs_backwards() {
    let total = 37;
    let mut last = 0;
    for processed in 0..=total {
        let now = row_permille(processed, total);
        assert!(last <= now && (400..=900).contains(&now));
        last = now;
    }
    assert_eq!(last, 900);
}

#[test]
fn failure_keeps_the_fraction_and_clears_the_flag() {
    let at = ConversionProgress::converting(1, 2);
    let failed = at.failed(&ConversionError::UnsupportedStructure);
    assert_eq!(failed.status, "Unsupported JSON structure");
    assert_eq!(failed.permille, 650);
    assert!(!failed.in_progress);
    let failed = ConversionProgress::parsing().failed(&ConversionError::Parse("bad".to_string()));
    assert_eq!(failed.status, "JSON parsing error: bad");
    assert_eq!(failed.permille, 200);
    assert!(!failed.in_progress);
}
