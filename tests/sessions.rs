use tempus_cli::aggregate::{list_sessions, session_in_range, total_seconds};
use tempus_cli::controller::{run_operation, Operation, Outcome};
use tempus_cli::range::DateRange;
use tempus_cli::session::{ProjectLog, SessionError, SessionRecord};
use tempus_cli::time::{get_length_secs, Timestamp};

fn at(secs: i64) -> Timestamp {
    Timestamp { secs, offset: 0 }
}

fn rec(start: i64, end: i64) -> SessionRecord {
    SessionRecord { start: at(start), end: at(end) }
}

#[test]
fn discard_twice() {
    let mut log = ProjectLog::new();
    log.start_session(at(100)).unwrap();
    assert_eq!(log.discard_open_session(), Ok(at(100)));
    assert_eq!(log.discard_open_session(), Err(SessionError::NoOpenSession));
    assert!(log.records.is_empty());
}

#[test]
fn start_then_end_records_interval() {
    let mut log = ProjectLog::new();
    log.start_session(at(1_000)).unwrap();
    let r = log.end_session(at(1_001)).unwrap();
    assert_eq!(r, rec(1_000, 1_001));
    assert_eq!(r.length_secs(), 1);
    assert_eq!(log.records, vec![r]);
    assert!(!log.has_open_session());
}

#[test]
fn second_start_is_refused() {
    let mut log = ProjectLog::new();
    assert_eq!(log.start_session(at(10)), Ok(()));
    assert_eq!(log.start_session(at(11)), Err(SessionError::AlreadyOpen));
    assert_eq!(log.open, Some(at(10)));
}

#[test]
fn end_without_open_session() {
    let mut log = ProjectLog::new();
    assert_eq!(log.end_session(at(10)), Err(SessionError::NoOpenSession));
    assert!(log.records.is_empty());
}

#[test]
fn total_of_one_and_two_and_a_half_hours() {
    let log = vec![rec(0, 3_600), rec(10_000, 19_000)];
    let secs = total_seconds(&log, &None);
    assert_eq!(secs, 12_600);
    assert_eq!(secs as f64 / 3600.0, 3.5);
}

#[test]
fn empty_log_totals_zero() {
    assert_eq!(total_seconds(&vec![], &None), 0);
    assert!(list_sessions(&vec![], &None).is_empty());
}

#[test]
fn upper_bound_is_inclusive() {
    let range = Some(DateRange(at(0), at(1_000)));
    assert!(session_in_range(&rec(1_000, 2_000), &range));
    assert!(!session_in_range(&rec(1_001, 2_000), &range));
    let log = vec![rec(-5, 0), rec(0, 10), rec(1_000, 1_500), rec(1_001, 1_100)];
    assert_eq!(list_sessions(&log, &range), vec![rec(0, 10), rec(1_000, 1_500)]);
    assert_eq!(total_seconds(&log, &range), 510);
}

#[test]
fn range_outside_all_records() {
    let log = vec![rec(100, 200), rec(300, 400)];
    let range = Some(DateRange(at(1_000), at(2_000)));
    assert_eq!(total_seconds(&log, &range), 0);
    assert!(list_sessions(&log, &range).is_empty());
}

#[test]
fn degenerate_range_of_one_instant() {
    let log = vec![rec(100, 200), rec(300, 400)];
    let range = Some(DateRange(at(300), at(300)));
    assert_eq!(list_sessions(&log, &range), vec![rec(300, 400)]);
}

#[test]
fn length_in_seconds() {
    assert_eq!(get_length_secs(&at(100), &at(4_700)), 4_600);
}

#[test]
fn toggle_starts_then_ends() {
    let mut log = ProjectLog::new();
    match run_operation(&mut log, Operation::Toggle, &None, at(50)) {
        Ok(Outcome::Started(t)) => assert_eq!(t, at(50)),
        other => panic!("unexpected {:?}", other),
    }
    match run_operation(&mut log, Operation::Start, &None, at(60)) {
        Ok(Outcome::StartedAt(t)) => assert_eq!(t, at(50)),
        other => panic!("unexpected {:?}", other),
    }
    match run_operation(&mut log, Operation::Toggle, &None, at(7_250)) {
        Ok(Outcome::Ended(r)) => assert_eq!(r, rec(50, 7_250)),
        other => panic!("unexpected {:?}", other),
    }
    match run_operation(&mut log, Operation::Hours, &None, at(8_000)) {
        Ok(Outcome::Hours(h)) => assert_eq!(h, 7_200),
        other => panic!("unexpected {:?}", other),
    }
    match run_operation(&mut log, Operation::Times, &None, at(8_000)) {
        Ok(Outcome::Times(v)) => assert_eq!(v, vec![rec(50, 7_250)]),
        other => panic!("unexpected {:?}", other),
    }
    assert!(matches!(
        run_operation(&mut log, Operation::Start, &None, at(8_000)),
        Err(SessionError::NoOpenSession)
    ));
    assert!(matches!(
        run_operation(&mut log, Operation::Delete, &None, at(8_000)),
        Err(SessionError::NoOpenSession)
    ));
}
