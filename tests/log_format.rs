use tempus_cli::logfile::{format_log, format_record, load_project, parse_log, StoreError};
use tempus_cli::session::SessionRecord;
use tempus_cli::time::{datetime_from_str, datetime_to_readable_str, format_datetime, get_start_date, Timestamp};

fn rec(start: i64, end: i64, offset: i32) -> SessionRecord {
    SessionRecord { start: Timestamp { secs: start, offset }, end: Timestamp { secs: end, offset } }
}

#[test]
fn rfc3339_text_of_instant() {
    let t = Timestamp { secs: 1_638_316_800, offset: 3_600 };
    assert_eq!(format_datetime(&t), "2021-12-01T01:00:00+01:00");
    assert_eq!(format_datetime(&get_start_date()), "1970-01-01T00:00:00+00:00");
}

#[test]
fn rfc3339_text_is_read_back() {
    let t = datetime_from_str("2021-12-01T01:00:00+01:00").unwrap();
    assert_eq!(t, Timestamp { secs: 1_638_316_800, offset: 3_600 });
    assert_eq!(datetime_from_str("not a date"), None);
}

#[test]
fn readable_text_of_instant() {
    let t = Timestamp { secs: 1_638_316_800, offset: 3_600 };
    assert_eq!(datetime_to_readable_str(&t), "2021-12-01 01:00:00");
}

#[test]
fn record_line_layout() {
    let line = format_record(&rec(0, 3_600, 0));
    assert_eq!(line, "1970-01-01T00:00:00+00:00,1970-01-01T01:00:00+00:00\n");
}

#[test]
fn log_text_reads_back() {
    let recs = vec![rec(1_638_316_800, 1_638_320_400, 3_600), rec(1_638_400_000, 1_638_409_000, -18_000)];
    let text = format_log(&recs);
    assert_eq!(parse_log(&text).unwrap(), recs);
}

#[test]
fn empty_lines_are_skipped() {
    let text = "\n1970-01-01T00:00:00+00:00,1970-01-01T01:00:00+00:00\n\n";
    assert_eq!(parse_log(text).unwrap(), vec![rec(0, 3_600, 0)]);
    assert_eq!(parse_log("").unwrap(), vec![]);
}

#[test]
fn malformed_lines_are_reported() {
    match parse_log("1970-01-01T00:00:00+00:00\n") {
        Err(StoreError::MalformedLine(l)) => assert_eq!(l, "1970-01-01T00:00:00+00:00"),
        other => panic!("unexpected {:?}", other),
    }
    match parse_log("1970-01-01T01:00:00+00:00,1970-01-01T00:00:00+00:00") {
        Err(StoreError::MalformedLine(_)) => {}
        other => panic!("unexpected {:?}", other),
    }
}

#[test]
fn project_without_log_is_not_found() {
    assert!(matches!(load_project(None, None), Err(StoreError::ProjectNotFound)));
    let open = Timestamp { secs: 7, offset: 0 };
    let p = load_project(Some(""), Some(open)).unwrap();
    assert!(p.records.is_empty());
    assert_eq!(p.open, Some(open));
}
