use blueflame::approval::{ApprovalGate, Decision};
use blueflame::browser::TabInfo;
use blueflame::claude_tabs::ClaudeTabs;
use blueflame::dispatch::{
    acts_on_tab, approval_step, check_owned_tab, open_tab_target, outcome_text, settle_approval, tool_named,
    visible_tabs, ApprovalStep, Tool,
};

#[test]
fn tools_are_named_on_the_wire() {
    assert_eq!(tool_named("list_tabs"), Ok(Tool::ListTabs));
    assert_eq!(tool_named("screenshot"), Ok(Tool::Screenshot));
    assert_eq!(tool_named("type"), Ok(Tool::Type));
    assert_eq!(tool_named("rm -rf").unwrap_err(), "unknown tool: rm -rf");
    assert!(!acts_on_tab(Tool::ListTabs));
    assert!(!acts_on_tab(Tool::OpenTab));
    assert!(acts_on_tab(Tool::Click));
}

#[test]
fn only_owned_tabs_are_reachable() {
    let mut tabs = ClaudeTabs::default();
    tabs.mark(3);
    assert_eq!(check_owned_tab(Some(3), &tabs), Ok(3));
    assert_eq!(check_owned_tab(None, &tabs).unwrap_err(), "missing tab_id");
    assert!(check_owned_tab(Some(4), &tabs).unwrap_err().starts_with("tab 4 "));
}

#[test]
fn approvals_ask_once_then_remember() {
    let mut gate = ApprovalGate::in_memory();
    assert!(matches!(approval_step(&gate, "https://a.example"), ApprovalStep::Ask));
    assert!(settle_approval(&mut gate, "https://a.example", Some(true)).is_ok());
    assert!(matches!(approval_step(&gate, "https://a.example"), ApprovalStep::Proceed));
    assert_eq!(
        settle_approval(&mut gate, "https://b.example", Some(false)).unwrap_err(),
        "https://b.example was denied"
    );
    match approval_step(&gate, "https://b.example") {
        ApprovalStep::Refuse(m) => assert_eq!(m, "https://b.example was previously denied"),
        _ => panic!("expected a refusal"),
    }
    assert_eq!(
        settle_approval(&mut gate, "https://c.example", None).unwrap_err(),
        "no answer for https://c.example within 120s"
    );
    assert!(matches!(approval_step(&gate, "https://c.example"), ApprovalStep::Ask));
    assert_eq!(gate.decision("https://b.example"), Some(Decision::Deny));
}

#[test]
fn open_tab_defaults_to_blank_without_approval() {
    assert_eq!(open_tab_target(None), ("about:blank".to_string(), false));
    assert_eq!(open_tab_target(Some("https://x.example")), ("https://x.example".to_string(), true));
}

#[test]
fn outcomes_for_the_action_log() {
    assert_eq!(outcome_text(None), "ok");
    assert_eq!(outcome_text(Some("boom")), "error: boom");
}

fn tab(id: u64) -> TabInfo {
    TabInfo { id, url: format!("https://t{id}.example"), title: String::new(), loading: false, private: true }
}

#[test]
fn listing_and_reconciling_owned_tabs() {
    let mut owned = ClaudeTabs::default();
    owned.mark(2);
    owned.mark(9);
    let tabs = vec![tab(1), tab(2), tab(3)];
    let v = visible_tabs(&tabs, &owned);
    assert_eq!(v.len(), 1);
    assert_eq!(v[0].id, 2);
    owned.reconcile(&vec![1, 2, 3]);
    assert_eq!(owned.list(), vec![2]);
    owned.reconcile(&vec![]);
    assert!(owned.list().is_empty());
}
