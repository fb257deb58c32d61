use blueflame::debug_log::{finish_message, DebugEntry, DebugLog, CAPACITY};

fn entry(ts: u64, message: String) -> DebugEntry {
    DebugEntry { ts, level: "info".into(), target: "t".into(), message }
}

#[test]
fn push_respects_capacity() {
    let mut log = DebugLog::default();
    for i in 0..CAPACITY + 10 {
        log.push(entry(i as u64, format!("m{i}")));
    }
    let all = log.recent(1000);
    assert_eq!(all.len(), CAPACITY);
    assert_eq!(all.last().unwrap().message, format!("m{}", CAPACITY + 9));
}

#[test]
fn recent_returns_tail_in_order() {
    let mut log = DebugLog::default();
    for i in 0..5 {
        log.push(entry(i, format!("m{i}")));
    }
    let tail = log.recent(3);
    assert_eq!(tail.len(), 3);
    assert_eq!(tail[0].message, "m2");
    assert_eq!(tail[2].message, "m4");
}

#[test]
fn clear_wipes_all() {
    let mut log = DebugLog::default();
    log.push(entry(0, "m".into()));
    log.clear();
    assert!(log.recent(10).is_empty());
}

#[test]
fn message_and_fields_are_joined() {
    assert_eq!(finish_message("hello", ""), "hello");
    assert_eq!(finish_message("", "a=1"), "a=1");
    assert_eq!(finish_message("hello", "a=1 b=2"), "hello a=1 b=2");
}

#[test]
fn push_appends_after_previous_listing() {
    let mut log = DebugLog::default();
    for i in 0..CAPACITY {
        log.push(entry(i as u64, format!("m{i}")));
    }
    let before: Vec<String> = log.recent(usize::MAX).iter().map(|e| e.message.clone()).collect();
    log.push(entry(9999, "last".to_string()));
    let after: Vec<String> = log.recent(usize::MAX).iter().map(|e| e.message.clone()).collect();
    let mut expected = before.clone();
    expected.push("last".to_string());
    let drop = expected.len() - CAPACITY;
    assert_eq!(after, expected[drop..].to_vec());
    assert_eq!(after[0], "m1");
}
