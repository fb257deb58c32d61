use blueflame::claude_tabs::ClaudeTabs;

#[test]
fn unmarked_tab_is_not_a_claude_tab() {
    let tabs = ClaudeTabs::default();
    assert!(!tabs.is_claude_tab(1));
}

#[test]
fn marking_makes_it_visible() {
    let mut tabs = ClaudeTabs::default();
    tabs.mark(5);
    assert!(tabs.is_claude_tab(5));
    assert_eq!(tabs.list(), vec![5]);
}

#[test]
fn unmarking_removes_it() {
    let mut tabs = ClaudeTabs::default();
    tabs.mark(5);
    tabs.unmark(5);
    assert!(!tabs.is_claude_tab(5));
    assert!(tabs.list().is_empty());
}

#[test]
fn marking_twice_keeps_one() {
    let mut tabs = ClaudeTabs::default();
    tabs.mark(5);
    tabs.mark(5);
    tabs.mark(7);
    let mut l = tabs.list();
    l.sort();
    assert_eq!(l, vec![5, 7]);
}

#[test]
fn last_mark_or_unmark_decides() {
    let mut tabs = ClaudeTabs::default();
    tabs.mark(3);
    tabs.mark(4);
    tabs.unmark(3);
    tabs.mark(3);
    tabs.unmark(4);
    assert!(tabs.is_claude_tab(3));
    assert!(!tabs.is_claude_tab(4));
    assert!(!tabs.is_claude_tab(9));
}
