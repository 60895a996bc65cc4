use json_to_csv::config::{ConversionConfig, QuotePolicy};
use json_to_csv::conversion::convert;
use json_to_csv::error::ConversionError;
use json_to_csv::job::{ConversionJob, JobStage};

fn strings(items: &[&str]) -> Vec<String> {
    items.iter().map(|s| s.to_string()).collect()
}

fn trace(job: ConversionJob) -> (ConversionJob, Vec<(JobStage, u16, String, bool)>) {
    let mut job = job;
    let mut seen = Vec::new();
    loop {
        let progress = job.progress();
        seen.push((job.stage(), progress.permille, progress.status.clone(), progress.in_progress));
        if job.is_finished() {
            return (job, seen);
        }
        job = job.advance();
    }
}

#[test]
fn a_job_passes_every_milestone() {
    let source = "[{\"a\":1},{\"a\":2},5,{\"a\":\"x\"}]".to_string();
    let job = ConversionJob::new(source, Vec::new(), ConversionConfig::default());
    let (job, seen) = trace(job);
    let expected = vec![
        (JobStage::Pending, 0, "Starting conversion...".to_string(), true),
        (JobStage::Parsing, 200, "Parsing JSON...".to_string(), true),
        (JobStage::Converting, 400, "Converting to CSV...".to_string(), true),
        (JobStage::Converting, 525, "Converting to CSV...".to_string(), true),
        (JobStage::Converting, 650, "Converting to CSV...".to_string(), true),
        (JobStage::Converting, 775, "Converting to CSV...".to_string(), true),
        (JobStage::Finalizing, 900, "Finalizing...".to_string(), true),
        (JobStage::Done, 1000, "Conversion completed successfully".to_string(), false),
    ];
    assert_eq!(seen, expected);
    assert_eq!(job.csv().unwrap(), "a\n1\n2\n\"\"\"x\"\"\"\n");
    assert!(job.failure().is_none());
    assert_eq!(job.table().rows.len(), 3);
}

#[test]
fn a_single_object_is_one_element() {
    let job =
        ConversionJob::new("{\"a\":1,\"b\":2}".to_string(), Vec::new(), ConversionConfig::default());
    let (job, seen) = trace(job);
    let stages: Vec<(JobStage, u16)> = seen.iter().map(|s| (s.0, s.1)).collect();
    assert_eq!(
        stages,
        vec![
            (JobStage::Pending, 0),
            (JobStage::Parsing, 200),
            (JobStage::Converting, 400),
            (JobStage::Finalizing, 900),
            (JobStage::Done, 1000),
        ]
    );
    assert_eq!(job.csv().unwrap(), "a,b\n1,2\n");
    assert_eq!(job.table().preview, vec![strings(&["1", "2"])]);
}

#[test]
fn a_parse_error_ends_the_job() {
    let job = ConversionJob::new("[1,".to_string(), Vec::new(), ConversionConfig::default());
    let (job, seen) = trace(job);
    assert_eq!(seen.len(), 3);
    let last = seen.last().unwrap();
    assert_eq!(last.0, JobStage::Failed);
    assert_eq!(last.1, 200);
    assert!(last.2.starts_with("JSON parsing error: EOF while parsing"));
    assert!(!last.3);
    assert!(job.csv().is_none());
    assert!(matches!(job.failure(), Some(ConversionError::Parse(_))));
    assert_eq!(job.table().rows.len(), 0);
}

#[test]
fn an_unsupported_document_ends_the_job() {
    for source in ["42", "[]", "[1,2]", "null", "\"text\""] {
        let job = ConversionJob::new(source.to_string(), Vec::new(), ConversionConfig::default());
        let (job, seen) = trace(job);
        let last = seen.last().unwrap();
        assert_eq!(
            (last.0, last.1, last.2.as_str(), last.3),
            (JobStage::Failed, 200, "Unsupported JSON structure", false)
        );
        assert!(job.csv().is_none());
        assert_eq!(job.failure(), Some(&ConversionError::UnsupportedStructure));
        assert_eq!(job.table().rows.len(), 0);
    }
}

#[test]
fn a_serialization_failure_ends_the_job_without_text() {
    let settings = ConversionConfig {
        delimiter: 'é',
        quote_policy: QuotePolicy::WhenNeeded,
        include_header: true,
        row_cap_for_preview: 100,
    };
    let job = ConversionJob::new("{\"a\":1,\"b\":2}".to_string(), Vec::new(), settings);
    let (job, seen) = trace(job);
    let last = seen.last().unwrap();
    assert_eq!(
        (last.0, last.1, last.2.as_str(), last.3),
        (JobStage::Failed, 900, "CSV generation error: the table is ragged or its text is not UTF-8", false)
    );
    assert!(job.csv().is_none());
    assert_eq!(job.failure(), Some(&ConversionError::Serialize));
}

#[test]
fn a_finished_job_stays_as_it_is() {
    let job = ConversionJob::new("{\"a\":1}".to_string(), Vec::new(), ConversionConfig::default());
    let job = job.run();
    assert!(job.is_finished());
    assert_eq!(job.stage(), JobStage::Done);
    let text = job.csv().unwrap().clone();
    let job = job.advance().run();
    assert_eq!(job.stage(), JobStage::Done);
    assert_eq!(job.csv().unwrap(), &text);
    assert_eq!(job.progress().permille, 1000);

    let failed = ConversionJob::new("7".to_string(), Vec::new(), ConversionConfig::default());
    let failed = failed.run().advance();
    assert_eq!(failed.stage(), JobStage::Failed);
    assert_eq!(failed.progress().status, "Unsupported JSON structure");
}

#[test]
fn a_job_gives_what_one_call_gives() {
    let source = "[{\"id\":1,\"v\":[1,2]},{\"id\":2,\"w\":null},{\"v\":\"a;b\"}]";
    let settings = ConversionConfig {
        delimiter: ';',
        quote_policy: QuotePolicy::WhenNeeded,
        include_header: true,
        row_cap_for_preview: 2,
    };
    let columns = strings(&["v", "id", "none"]);
    let direct = convert(source, &columns, &settings).unwrap();
    let job = ConversionJob::new(source.to_string(), columns, settings).run();
    assert_eq!(job.csv().unwrap(), &direct.csv);
    assert_eq!(job.table().header, direct.table.header);
    assert_eq!(job.table().rows, direct.table.rows);
    assert_eq!(job.table().preview, direct.table.preview);
    assert_eq!(direct.csv, "v;id;none\n[1,2];1;\n;2;\n\"\"\"a;b\"\"\";;\n");
    assert_eq!(direct.table.preview.len(), 2);
}

#[test]
fn fraction_never_runs_backwards_in_a_job() {
    let mut source = String::from("[");
    for i in 0..25 {
        if i > 0 {
            source.push(',');
        }
        source.push_str(&format!("{{\"n\":{}}}", i));
    }
    source.push(']');
    let job = ConversionJob::new(source, Vec::new(), ConversionConfig::default());
    let (_, seen) = trace(job);
    assert_eq!(seen.len(), 3 + 25 + 1);
    for pair in seen.windows(2) {
        assert!(pair[0].1 <= pair[1].1);
        assert!(pair[0].3);
    }
    assert_eq!(seen.last().unwrap().1, 1000);
}

#[test]
fn two_jobs_on_the_same_input_end_alike() {
    for source in ["[{\"a\":1},{\"b\":2}]", "{\"a\":1,\"b\":2}", "42", "{"] {
        let first =
            ConversionJob::new(source.to_string(), Vec::new(), ConversionConfig::default()).run();
        let second =
            ConversionJob::new(source.to_string(), Vec::new(), ConversionConfig::default()).run();
        assert_eq!(first.stage(), second.stage());
        assert_eq!(first.csv(), second.csv());
        assert_eq!(first.failure(), second.failure());
        assert_eq!(first.progress(), second.progress());
        assert_eq!(first.table().header, second.table().header);
        assert_eq!(first.table().rows, second.table().rows);
        assert!(!first.progress().in_progress);
    }
}

#[test]
fn a_failed_job_holds_the_table_it_had() {
    let unsupported =
        ConversionJob::new("[1,{\"a\":1}]".to_string(), strings(&["a"]), ConversionConfig::default())
            .run();
    assert_eq!(unsupported.stage(), JobStage::Failed);
    assert!(unsupported.table().header.is_empty());
    assert!(unsupported.table().rows.is_empty());
    assert!(unsupported.table().preview.is_empty());
    let settings = ConversionConfig {
        delimiter: '\u{e9}',
        quote_policy: QuotePolicy::Never,
        include_header: false,
        row_cap_for_preview: 1,
    };
    let broken = ConversionJob::new("[{\"a\":1,\"b\":2},{\"a\":3}]".to_string(), Vec::new(), settings).run();
    assert_eq!(broken.failure(), Some(&ConversionError::Serialize));
    assert_eq!(broken.table().header, strings(&["a", "b"]));
    assert_eq!(broken.table().rows, vec![strings(&["1", "2"]), strings(&["3", ""])]);
    assert_eq!(broken.table().preview, vec![strings(&["1", "2"])]);
    assert!(broken.csv().is_none());
}
