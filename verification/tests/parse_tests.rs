use xtrace_parser::Correlator;
use xtrace_parser::FnType;
use xtrace_parser::LineRegex;
use xtrace_parser::ParseError;
use xtrace_parser::XtraceEntryRecord;
use xtrace_parser::XtraceExitRecord;
use xtrace_parser::XtraceFmtRecord;
use xtrace_parser::XtraceStartTimeRecord;
use xtrace_parser::XtraceVersionRecord;
use xtrace_parser::XtraceFileRecord;
use xtrace_parser::classify_line;
use xtrace_parser::parse_xtrace_lines;
use xtrace_parser::process_line;

fn lines(v: &[&str]) -> Vec<String> {
    v.iter().map(|s| s.to_string()).collect()
}

#[test]
fn it_works() {
    let result = 2 + 2;
    assert_eq!(result, 4);
}

#[test]
fn classify_each_kind() {
    assert_eq!(classify_line("Version: 3.1.0"), Some(LineRegex::Version));
    assert_eq!(classify_line("File format: 4"), Some(LineRegex::Format));
    assert_eq!(
        classify_line("TRACE START [2024-01-02 03:04:05.123456]"),
        Some(LineRegex::Start)
    );
    assert_eq!(
        classify_line("0\t1\t0\t0.001\t1000\tfoo\t1\tinc.php\tmain.php\t10\t0\t"),
        Some(LineRegex::FunctionEntry)
    );
    assert_eq!(
        classify_line("0\t1\t1\t0.002\t1100"),
        Some(LineRegex::FunctionExit)
    );
    assert_eq!(classify_line("    0.123\t456"), Some(LineRegex::Penultimate));
    assert_eq!(
        classify_line("TRACE END   [2024-01-02 03:04:05.123456]"),
        Some(LineRegex::End)
    );
    assert_eq!(classify_line("garbage line with no structure"), None);
    assert_eq!(classify_line(""), None);
    assert_eq!(classify_line("\n"), None);
}

#[test]
fn classify_version_is_unanchored() {
    assert_eq!(
        classify_line("some tool, Version: 12.34.5 (c) someone"),
        Some(LineRegex::Version)
    );
}

#[test]
fn regex_str_texts() {
    assert_eq!(
        LineRegex::Format.regex_str(),
        r"^File format: (?P<format>\d+)"
    );
    assert_eq!(
        LineRegex::FunctionExit.regex_str(),
        r"^(\d+)\t(\d+)\t(1)\t(\d+\.\d+)\t(\d+).*"
    );
}

#[test]
fn decode_version_record() {
    let rec = XtraceVersionRecord::new("Version: 3.1.0").unwrap();
    assert_eq!(rec.version, "3.1.0");
    let rec = XtraceVersionRecord::new("tool Version:   12.0.7-beta").unwrap();
    assert_eq!(rec.version, "12.0.7");
    assert!(XtraceVersionRecord::new("Version: nope").is_none());
}

#[test]
fn decode_start_record() {
    let rec = XtraceStartTimeRecord::new("TRACE START [2024-01-02 03:04:05.123456]").unwrap();
    assert_eq!(rec.start_time, "2024-01-02 03:04:05.123456");
    assert!(XtraceStartTimeRecord::new("TRACE START [not a time]").is_none());
}

#[test]
fn decode_format_record() {
    let rec = XtraceFmtRecord::new("File format: 4").unwrap();
    assert_eq!(rec.format, 4);
    match XtraceFmtRecord::new("File format: 3") {
        Err(ParseError::UnsupportedFormat { found }) => assert_eq!(found, "3"),
        other => panic!("expected an unsupported-format error, got {other:?}"),
    }
    match XtraceFmtRecord::new("no header here") {
        Err(ParseError::UnparseableField { line }) => assert_eq!(line, "no header here"),
        other => panic!("expected an unparseable-field error, got {other:?}"),
    }
}

#[test]
fn decode_entry_record_fields() {
    let rec =
        XtraceEntryRecord::new("0\t1\t0\t0.001\t1000\tfoo\t1\tinc.php\tmain.php\t10\t0\t")
            .unwrap();
    assert_eq!(rec.level, 0);
    assert_eq!(rec.fn_num, 1);
    assert_eq!(rec.time_idx, "0.001");
    assert_eq!(rec.mem_usage, 1000);
    assert_eq!(rec.fn_name, "foo");
    assert_eq!(rec.fn_type, FnType::User);
    assert_eq!(rec.inc_file_name, "inc.php");
    assert_eq!(rec.file_name, "main.php");
    assert_eq!(rec.line_num, 10);
    assert_eq!(rec.arg_num, 0);
    assert!(rec.args.is_empty());
}

#[test]
fn decode_entry_record_args() {
    let rec = XtraceEntryRecord::new(
        "1\t7\t0\t0.5\t2000\tbar\t0\t\tmain.php\t3\t2\t'a'\t'b'\n",
    )
    .unwrap();
    assert_eq!(rec.fn_type, FnType::Internal);
    assert_eq!(rec.inc_file_name, "");
    assert_eq!(rec.arg_num, 2);
    assert_eq!(rec.args, vec!["'a'".to_string(), "'b'".to_string()]);
}

#[test]
fn decode_entry_record_single_undivided_argument() {
    let rec = XtraceEntryRecord::new(
        "1\t7\t0\t0.5\t2000\tbar\t0\t\tmain.php\t3\t2\t'a', 'b'",
    )
    .unwrap();
    assert_eq!(rec.args, vec!["'a', 'b'".to_string()]);
}

#[test]
fn decode_entry_record_failures() {
    assert!(XtraceEntryRecord::new("too\tfew\tfields").is_none());
    assert!(
        XtraceEntryRecord::new("0\t99999999999999\t0\t0.001\t1000\tfoo\t1\ti\tm\t10\t0\t")
            .is_none()
    );
    assert!(
        XtraceEntryRecord::new("0\t1\t0\t0.001\t1000\tfoo\t7\ti\tm\t10\t0\t").is_none()
    );
}

#[test]
fn decode_exit_record_fields() {
    let rec = XtraceExitRecord::new("0\t1\t1\t0.002\t1100\n").unwrap();
    assert_eq!(rec.level, 0);
    assert_eq!(rec.fn_num, 1);
    assert_eq!(rec.time_idx, "0.002");
    assert_eq!(rec.mem_usage, 1100);
    assert!(XtraceExitRecord::new("0\t1\t1").is_none());
}

#[test]
fn fn_type_from_tags() {
    assert_eq!(FnType::from(0), FnType::Internal);
    assert_eq!(FnType::from(1), FnType::User);
}

#[test]
fn correlator_pairs_entry_and_exit() {
    let mut cache = Correlator::new();
    let entry =
        XtraceEntryRecord::new("0\t1\t0\t0.001\t1000\tfoo\t1\tinc.php\tmain.php\t10\t0\t")
            .unwrap();
    cache.observe_entry(entry);
    let exit = XtraceExitRecord::new("0\t1\t1\t0.002\t1100").unwrap();
    let rec = cache.observe_exit(exit).unwrap();
    assert_eq!(rec.fn_num, 1);
    assert_eq!(rec.entry_record.unwrap().fn_name, "foo");
    assert_eq!(rec.exit_record.unwrap().mem_usage, 1100);
    let exit_again = XtraceExitRecord::new("0\t1\t1\t0.003\t1200").unwrap();
    assert!(cache.observe_exit(exit_again).is_none());
}

#[test]
fn round_trip_one_call() {
    let input = lines(&[
        "0\t1\t0\t0.001\t1000\tfoo\t1\tinc.php\tmain.php\t10\t0\t",
        "0\t1\t1\t0.002\t1100",
    ]);
    let run = parse_xtrace_lines(uuid::Uuid::nil(), &input).unwrap();
    assert_eq!(run.fn_records.len(), 1);
    let rec = &run.fn_records[0];
    assert_eq!(rec.fn_num, 1);
    let entry = rec.entry_record.as_ref().unwrap();
    assert_eq!(entry.level, 0);
    assert_eq!(entry.fn_name, "foo");
    assert_eq!(entry.fn_type, FnType::User);
    assert_eq!(entry.mem_usage, 1000);
    assert_eq!(entry.time_idx, "0.001");
    let exit = rec.exit_record.as_ref().unwrap();
    assert_eq!(exit.mem_usage, 1100);
    assert_eq!(exit.time_idx, "0.002");
}

#[test]
fn headers_are_recorded() {
    let input = lines(&[
        "Version: 3.1.0",
        "File format: 4",
        "TRACE START [2024-01-02 03:04:05.123456]",
        "TRACE END   [2024-01-02 03:04:06.000001]",
    ]);
    let id = uuid::Uuid::from_u128(7);
    let run = parse_xtrace_lines(id, &input).unwrap();
    assert_eq!(run.id, id);
    assert_eq!(run.version.unwrap().version, "3.1.0");
    assert_eq!(run.format.unwrap().format, 4);
    assert_eq!(run.start.unwrap().start_time, "2024-01-02 03:04:05.123456");
    assert!(run.fn_records.is_empty());
}

#[test]
fn later_header_overwrites_earlier() {
    let input = lines(&["Version: 1.0.0", "Version: 2.0.0"]);
    let run = parse_xtrace_lines(uuid::Uuid::nil(), &input).unwrap();
    assert_eq!(run.version.unwrap().version, "2.0.0");
}

#[test]
fn unsupported_format_aborts() {
    let input = lines(&[
        "File format: 5",
        "0\t1\t0\t0.001\t1000\tfoo\t1\tinc.php\tmain.php\t10\t0\t",
        "0\t1\t1\t0.002\t1100",
    ]);
    match parse_xtrace_lines(uuid::Uuid::nil(), &input) {
        Err(ParseError::UnsupportedFormat { found }) => assert_eq!(found, "5"),
        other => panic!("expected an unsupported-format error, got {other:?}"),
    }
}

#[test]
fn garbage_line_is_skipped() {
    let input = lines(&[
        "0\t1\t0\t0.001\t1000\tfoo\t1\tinc.php\tmain.php\t10\t0\t",
        "garbage line with no structure",
        "0\t1\t1\t0.002\t1100",
    ]);
    let run = parse_xtrace_lines(uuid::Uuid::nil(), &input).unwrap();
    assert_eq!(run.fn_records.len(), 1);
    assert_eq!(run.fn_records[0].fn_num, 1);
    assert!(run.version.is_none());
}

#[test]
fn unmatched_exit_is_dropped() {
    let input = lines(&["0\t9\t1\t0.002\t1100"]);
    let run = parse_xtrace_lines(uuid::Uuid::nil(), &input).unwrap();
    assert!(run.fn_records.is_empty());
}

#[test]
fn dangling_entry_is_dropped() {
    let input = lines(&[
        "0\t1\t0\t0.001\t1000\tfoo\t1\tinc.php\tmain.php\t10\t0\t",
        "1\t2\t0\t0.002\t1100\tbar\t0\tinc.php\tmain.php\t11\t0\t",
        "1\t2\t1\t0.003\t1200",
    ]);
    let run = parse_xtrace_lines(uuid::Uuid::nil(), &input).unwrap();
    assert_eq!(run.fn_records.len(), 1);
    assert_eq!(run.fn_records[0].fn_num, 2);
}

#[test]
fn reentry_last_write_wins() {
    let input = lines(&[
        "0\t1\t0\t0.001\t1000\tfirst\t1\tinc.php\tmain.php\t10\t0\t",
        "0\t1\t0\t0.005\t1500\tsecond\t1\tinc.php\tmain.php\t20\t0\t",
        "0\t1\t1\t0.006\t1600",
    ]);
    let run = parse_xtrace_lines(uuid::Uuid::nil(), &input).unwrap();
    assert_eq!(run.fn_records.len(), 1);
    let entry = run.fn_records[0].entry_record.as_ref().unwrap();
    assert_eq!(entry.fn_name, "second");
    assert_eq!(entry.line_num, 20);
}

#[test]
fn nested_calls_come_out_in_exit_order() {
    let input = lines(&[
        "0\t1\t0\t0.001\t1000\touter\t1\tinc.php\tmain.php\t10\t0\t",
        "1\t2\t0\t0.002\t1100\tinner\t0\tinc.php\tmain.php\t11\t0\t",
        "1\t2\t1\t0.003\t1200",
        "0\t1\t1\t0.004\t1300",
    ]);
    let run = parse_xtrace_lines(uuid::Uuid::nil(), &input).unwrap();
    assert_eq!(run.fn_records.len(), 2);
    assert_eq!(run.fn_records[0].fn_num, 2);
    assert_eq!(run.fn_records[0].entry_record.as_ref().unwrap().level, 1);
    assert_eq!(run.fn_records[1].fn_num, 1);
    assert_eq!(run.fn_records[1].entry_record.as_ref().unwrap().level, 0);
}

#[test]
fn unparseable_classified_line_is_fatal() {
    let huge = "0\t99999999999999\t0\t0.001\t1000\tfoo\t1\ti\tm\t10\t0\t";
    let input = lines(&[huge]);
    match parse_xtrace_lines(uuid::Uuid::nil(), &input) {
        Err(ParseError::UnparseableField { line }) => assert_eq!(line, huge),
        other => panic!("expected an unparseable-field error, got {other:?}"),
    }
}

#[test]
fn process_line_updates_run_and_cache() {
    let mut run = XtraceFileRecord {
        id: uuid::Uuid::nil(),
        start: None,
        format: None,
        version: None,
        fn_records: Vec::new(),
    };
    let mut cache = Correlator::new();
    process_line(
        &mut run,
        &mut cache,
        "0\t1\t0\t0.001\t1000\tfoo\t1\tinc.php\tmain.php\t10\t0\t",
    )
    .unwrap();
    assert!(run.fn_records.is_empty());
    process_line(&mut run, &mut cache, "0\t1\t1\t0.002\t1100").unwrap();
    assert_eq!(run.fn_records.len(), 1);
    assert_eq!(run.fn_records[0].fn_num, 1);
}

#[test]
fn empty_input_yields_empty_trace() {
    let input: Vec<String> = Vec::new();
    let run = parse_xtrace_lines(uuid::Uuid::nil(), &input).unwrap();
    assert!(run.version.is_none());
    assert!(run.format.is_none());
    assert!(run.start.is_none());
    assert!(run.fn_records.is_empty());
}
