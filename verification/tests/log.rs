use midir_tui::log::{Log, LOG_CAPACITY};

fn entries(log: &Log) -> Vec<String> {
    (0..log.len()).map(|i| log.get(i).unwrap()).collect()
}

#[test]
fn log_capacity_is_fixed() {
    assert_eq!(LOG_CAPACITY, 1024);
    let log = Log::new(LOG_CAPACITY);
    assert_eq!(log.capacity(), 1024);
    assert_eq!(log.len(), 0);
    assert!(log.is_empty());
    assert_eq!(log.get(0), None);
}

#[test]
fn push_keeps_the_order() {
    let mut log = Log::new(3);
    log.push("a".to_string());
    log.push("b".to_string());
    assert_eq!(entries(&log), vec!["a", "b"]);
    assert!(!log.is_empty());
    assert_eq!(log.get(1), Some("b".to_string()));
    assert_eq!(log.get(2), None);
}

#[test]
fn full_log_evicts_the_oldest() {
    let mut log = Log::new(3);
    for e in ["a", "b", "c"] {
        log.push(e.to_string());
    }
    assert_eq!(log.len(), 3);
    log.push("d".to_string());
    assert_eq!(entries(&log), vec!["b", "c", "d"]);
    log.push("e".to_string());
    assert_eq!(entries(&log), vec!["c", "d", "e"]);
    assert_eq!(log.len(), 3);
}

#[test]
fn log_never_exceeds_its_capacity() {
    let mut log = Log::new(LOG_CAPACITY);
    for i in 0..(LOG_CAPACITY + 10) {
        log.push(format!("{}", i));
        assert!(log.len() <= LOG_CAPACITY);
    }
    assert_eq!(log.len(), LOG_CAPACITY);
    assert_eq!(log.get(0), Some("10".to_string()));
    assert_eq!(log.get(LOG_CAPACITY - 1), Some(format!("{}", LOG_CAPACITY + 9)));
}

#[test]
fn log_without_room_keeps_nothing() {
    let mut log = Log::new(0);
    log.push("a".to_string());
    log.push_status("b");
    log.drain(vec!["c".to_string()]);
    assert_eq!(log.len(), 0);
    assert_eq!(log.recent(5), Vec::<String>::new());
}

#[test]
fn log_of_one_keeps_the_last() {
    let mut log = Log::new(1);
    log.push("a".to_string());
    log.push("b".to_string());
    assert_eq!(entries(&log), vec!["b"]);
}

#[test]
fn push_status_marks_the_line() {
    let mut log = Log::new(4);
    log.push_status("Opened input: Beta");
    assert_eq!(entries(&log), vec!["· Opened input: Beta"]);
}

#[test]
fn drain_appends_in_order() {
    let mut log = Log::new(4);
    log.push("a".to_string());
    log.drain(vec!["b".to_string(), "c".to_string()]);
    assert_eq!(entries(&log), vec!["a", "b", "c"]);
    log.drain(Vec::new());
    assert_eq!(entries(&log), vec!["a", "b", "c"]);
    log.drain(vec!["d".to_string(), "e".to_string(), "f".to_string()]);
    assert_eq!(entries(&log), vec!["c", "d", "e", "f"]);
}

#[test]
fn drain_of_more_than_fits_keeps_the_last() {
    let mut log = Log::new(2);
    log.push("a".to_string());
    log.drain((0..7).map(|i| format!("m{}", i)).collect());
    assert_eq!(entries(&log), vec!["m5", "m6"]);
}

#[test]
fn recent_is_newest_first() {
    let mut log = Log::new(8);
    for e in ["a", "b", "c", "d"] {
        log.push(e.to_string());
    }
    assert_eq!(log.recent(2), vec!["d", "c"]);
    assert_eq!(log.recent(4), vec!["d", "c", "b", "a"]);
    assert_eq!(log.recent(15), vec!["d", "c", "b", "a"]);
    assert_eq!(log.recent(0), Vec::<String>::new());
}
