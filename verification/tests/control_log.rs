use blueflame::control_log::{ActionLog, ActionLogEntry, RING_CAPACITY};

#[test]
fn recent_returns_newest_first() {
    let mut log = ActionLog::in_memory();
    log.record(ActionLogEntry::new(Some(1), "navigate", "a", "ok"));
    log.record(ActionLogEntry::new(Some(1), "click", "b", "ok"));
    let recent = log.recent(10);
    assert_eq!(recent.len(), 2);
    assert_eq!(recent[0].tool, "click");
    assert_eq!(recent[1].tool, "navigate");
}

#[test]
fn ring_buffer_caps_at_capacity() {
    let mut log = ActionLog::in_memory();
    for i in 0..(RING_CAPACITY + 10) {
        log.record(ActionLogEntry::new(None, "tool", &i.to_string(), "ok"));
    }
    assert_eq!(log.recent(usize::MAX).len(), RING_CAPACITY);
}

#[test]
fn recent_limit_keeps_newest() {
    let mut log = ActionLog::in_memory();
    for i in 0..5 {
        log.record(ActionLogEntry::new(None, "tool", &i.to_string(), "ok"));
    }
    let r = log.recent(2);
    assert_eq!(r.len(), 2);
    assert_eq!(r[0].detail, "4");
    assert_eq!(r[1].detail, "3");
}

#[test]
fn record_puts_entry_ahead_of_previous_listing() {
    let mut log = ActionLog::in_memory();
    for i in 0..RING_CAPACITY {
        log.record(ActionLogEntry::new(None, "tool", &i.to_string(), "ok"));
    }
    let before: Vec<String> = log.recent(usize::MAX).iter().map(|e| e.detail.clone()).collect();
    log.record(ActionLogEntry::new(None, "tool", "new", "ok"));
    let after: Vec<String> = log.recent(usize::MAX).iter().map(|e| e.detail.clone()).collect();
    let mut expected = vec!["new".to_string()];
    expected.extend(before.into_iter());
    expected.truncate(RING_CAPACITY);
    assert_eq!(after, expected);
}
