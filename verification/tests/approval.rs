use blueflame::approval::{origin_of, ApprovalGate, Decision};

#[test]
fn unknown_origin_has_no_decision() {
    let gate = ApprovalGate::in_memory();
    assert_eq!(gate.decision("https://example.com"), None);
}

#[test]
fn remembers_allow() {
    let mut gate = ApprovalGate::in_memory();
    gate.remember("https://example.com", Decision::Allow);
    assert_eq!(gate.decision("https://example.com"), Some(Decision::Allow));
}

#[test]
fn remembers_deny_independently_per_origin() {
    let mut gate = ApprovalGate::in_memory();
    gate.remember("https://a.example", Decision::Deny);
    assert_eq!(gate.decision("https://a.example"), Some(Decision::Deny));
    assert_eq!(gate.decision("https://b.example"), None);
}

#[test]
fn origin_of_normalizes_scheme_host_port() {
    assert_eq!(origin_of("https://example.com/a/b?x=1"), "https://example.com");
    assert_eq!(origin_of("http://example.com:8080/x"), "http://example.com:8080");
}

#[test]
fn origin_of_unparseable_url_falls_back_to_itself() {
    assert_eq!(origin_of("not a url"), "not a url");
}

#[test]
fn later_answer_replaces_earlier() {
    let mut gate = ApprovalGate::in_memory();
    gate.remember("https://a.example", Decision::Allow);
    gate.remember("https://a.example", Decision::Deny);
    assert_eq!(gate.decision("https://a.example"), Some(Decision::Deny));
    assert_eq!(gate.snapshot().len(), 1);
}

#[test]
fn replaying_a_snapshot_restores_every_decision() {
    let mut gate = ApprovalGate::in_memory();
    gate.remember("https://a.example", Decision::Allow);
    gate.remember("https://b.example", Decision::Deny);
    gate.remember("https://a.example", Decision::Deny);
    let saved = gate.snapshot();
    let mut fresh = ApprovalGate::in_memory();
    for (origin, d) in saved {
        fresh.remember(&origin, d);
    }
    for o in ["https://a.example", "https://b.example", "https://c.example"] {
        assert_eq!(fresh.decision(o), gate.decision(o));
    }
    assert_eq!(fresh.decision("https://a.example"), Some(Decision::Deny));
}
