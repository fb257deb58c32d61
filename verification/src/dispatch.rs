//! The control pipe's tool dispatcher, as decisions: which tool a request
//! names, whether the tab it names is one the control client opened,
//! whether the site it touches is approved (asking once, then
//! remembering), and what the action log records. Running the tools
//! against the webview, and waiting for the answer to an approval dialog,
//! is the shell's work.

use vstd::prelude::*;

use crate::approval::{ApprovalGate, Decision};
use crate::browser::TabInfo;
use crate::claude_tabs::ClaudeTabs;
use crate::text::{decimal, owned, push_str, str_eq, u64_to_decimal};

verus! {

/// A tool the control client can call.
#[derive(Debug, Clone, Copy, PartialEq, Eq, Structural)]
pub enum Tool {
    ListTabs,
    OpenTab,
    Navigate,
    GetPageText,
    ReadPage,
    Find,
    Click,
    Type,
    Key,
    Scroll,
    Screenshot,
}

/// The wire name of each tool.
pub open spec fn tool_name(t: Tool) -> Seq<char> {
    match t {
        Tool::ListTabs => "list_tabs"@,
        Tool::OpenTab => "open_tab"@,
        Tool::Navigate => "navigate"@,
        Tool::GetPageText => "get_page_text"@,
        Tool::ReadPage => "read_page"@,
        Tool::Find => "find"@,
        Tool::Click => "click"@,
        Tool::Type => "type"@,
        Tool::Key => "key"@,
        Tool::Scroll => "scroll"@,
        Tool::Screenshot => "screenshot"@,
    }
}

/// The tool a request names, if it names one.
pub open spec fn tool_of(name: Seq<char>) -> Option<Tool> {
    if name == "list_tabs"@ {
        Some(Tool::ListTabs)
    } else if name == "open_tab"@ {
        Some(Tool::OpenTab)
    } else if name == "navigate"@ {
        Some(Tool::Navigate)
    } else if name == "get_page_text"@ {
        Some(Tool::GetPageText)
    } else if name == "read_page"@ {
        Some(Tool::ReadPage)
    } else if name == "find"@ {
        Some(Tool::Find)
    } else if name == "click"@ {
        Some(Tool::Click)
    } else if name == "type"@ {
        Some(Tool::Type)
    } else if name == "key"@ {
        Some(Tool::Key)
    } else if name == "scroll"@ {
        Some(Tool::Scroll)
    } else if name == "screenshot"@ {
        Some(Tool::Screenshot)
    } else {
        None
    }
}

/// The tool `name` names, or `unknown tool: <name>`.
pub fn tool_named(name: &str) -> (r: Result<Tool, String>)
    ensures
        r matches Ok(t) ==> tool_of(name@) == Some(t) && tool_name(t) == name@,
        r matches Err(m) ==> tool_of(name@) is None && m@ == "unknown tool: "@ + name@,
        r is Ok <==> tool_of(name@) is Some,
{
    if str_eq(name, "list_tabs") {
        Ok(Tool::ListTabs)
    } else if str_eq(name, "open_tab") {
        Ok(Tool::OpenTab)
    } else if str_eq(name, "navigate") {
        Ok(Tool::Navigate)
    } else if str_eq(name, "get_page_text") {
        Ok(Tool::GetPageText)
    } else if str_eq(name, "read_page") {
        Ok(Tool::ReadPage)
    } else if str_eq(name, "find") {
        Ok(Tool::Find)
    } else if str_eq(name, "click") {
        Ok(Tool::Click)
    } else if str_eq(name, "type") {
        Ok(Tool::Type)
    } else if str_eq(name, "key") {
        Ok(Tool::Key)
    } else if str_eq(name, "scroll") {
        Ok(Tool::Scroll)
    } else if str_eq(name, "screenshot") {
        Ok(Tool::Screenshot)
    } else {
        let mut m = owned("unknown tool: ");
        push_str(&mut m, name);
        Err(m)
    }
}

/// Whether a tool acts on one of the control client's tabs (every tool
/// but listing and opening tabs).
pub fn acts_on_tab(t: Tool) -> (r: bool)
    ensures
        r == !(t == Tool::ListTabs || t == Tool::OpenTab),
{
    !(matches!(t, Tool::ListTabs) || matches!(t, Tool::OpenTab))
}

/// The refusal of a request whose tab is missing or not the control
/// client's own.
pub open spec fn tab_refusal(tab_id: Option<u64>, owned_tabs: Set<u64>) -> Option<Seq<char>> {
    match tab_id {
        None => Some("missing tab_id"@),
        Some(id) => if owned_tabs.contains(id) {
            None
        } else {
            Some("tab "@ + decimal(id as nat) + " is not a tab the control client opened"@)
        },
    }
}

/// Check that a request names a tab the control client opened itself, so
/// a stray id never reaches a tab of the person at the browser.
pub fn check_owned_tab(tab_id: Option<u64>, tabs: &ClaudeTabs) -> (r: Result<u64, String>)
    ensures
        r matches Ok(id) ==> tab_id == Some(id) && tabs@.contains(id),
        r is Ok <==> tab_refusal(tab_id, tabs@) is None,
        r matches Err(m) ==> tab_refusal(tab_id, tabs@) == Some(m@),
{
    match tab_id {
        None => Err(owned("missing tab_id")),
        Some(id) => if tabs.is_claude_tab(id) {
            Ok(id)
        } else {
            let mut m = owned("tab ");
            let n = u64_to_decimal(id);
            push_str(&mut m, n.as_str());
            push_str(&mut m, " is not a tab the control client opened");
            Err(m)
        },
    }
}

/// What to do about a request touching `origin`.
#[derive(Debug)]
pub enum ApprovalStep {
    /// Approved before: go ahead.
    Proceed,
    /// Denied before: refuse with this text.
    Refuse(String),
    /// Never seen: ask in the dialog and wait for the answer.
    Ask,
}

/// Whether a request touching `origin` has to ask in the dialog.
pub open spec fn asks(remembered: Map<Seq<char>, Decision>, origin: Seq<char>) -> bool {
    !remembered.contains_key(origin)
}

/// `<origin> was previously denied`.
pub open spec fn previously_denied(origin: Seq<char>) -> Seq<char> {
    origin + " was previously denied"@
}

/// Decide on a request touching `origin` from the remembered decisions.
pub fn approval_step(gate: &ApprovalGate, origin: &str) -> (r: ApprovalStep)
    ensures
        gate@.contains_key(origin@) && gate@[origin@] == Decision::Allow <==> r is Proceed,
        gate@.contains_key(origin@) && gate@[origin@] == Decision::Deny <==> r is Refuse,
        asks(gate@, origin@) <==> r is Ask,
        r matches ApprovalStep::Refuse(m) ==> m@ == previously_denied(origin@),
{
    match gate.decision(origin) {
        Some(Decision::Allow) => ApprovalStep::Proceed,
        Some(Decision::Deny) => {
            let mut m = owned(origin);
            push_str(&mut m, " was previously denied");
            ApprovalStep::Refuse(m)
        },
        None => ApprovalStep::Ask,
    }
}

/// Seconds an approval dialog waits for an answer.
pub const APPROVAL_TIMEOUT_SECS: u64 = 120;

/// Take in the dialog's answer for `origin` (`None`: no answer in time):
/// an answer is remembered, and only an allow lets the request go on.
pub fn settle_approval(gate: &mut ApprovalGate, origin: &str, answer: Option<bool>) -> (r: Result<(), String>)
    ensures
        answer == Some(true) ==> final(gate)@ == old(gate)@.insert(origin@, Decision::Allow) && r is Ok,
        answer == Some(false) ==> final(gate)@ == old(gate)@.insert(origin@, Decision::Deny),
        answer == Some(false) ==> (r matches Err(m) && m@ == origin@ + " was denied"@),
        answer is None ==> final(gate)@ == old(gate)@,
        answer is None ==> (r matches Err(m) && m@ == "no answer for "@ + origin@ + " within "@
            + decimal(APPROVAL_TIMEOUT_SECS as nat) + "s"@),
        final(gate).file() == old(gate).file(),
{
    match answer {
        Some(true) => {
            gate.remember(origin, Decision::Allow);
            Ok(())
        },
        Some(false) => {
            gate.remember(origin, Decision::Deny);
            let mut m = owned(origin);
            push_str(&mut m, " was denied");
            Err(m)
        },
        None => {
            let mut m = owned("no answer for ");
            push_str(&mut m, origin);
            push_str(&mut m, " within ");
            let n = u64_to_decimal(APPROVAL_TIMEOUT_SECS);
            push_str(&mut m, n.as_str());
            push_str(&mut m, "s");
            Err(m)
        },
    }
}

/// Once a site is answered, the same site is never asked about again: an
/// allow lets later requests through, a deny refuses them.
pub proof fn lemma_answer_is_final(before: Map<Seq<char>, Decision>, origin: Seq<char>, d: Decision)
    ensures
        !asks(before.insert(origin, d), origin),
        before.insert(origin, d)[origin] == d,
{
}

/// The URL an `open_tab` request opens (`about:blank` when none is
/// given), and whether its site needs approval first (every URL but
/// `about:blank`).
pub fn open_tab_target(url: Option<&str>) -> (r: (String, bool))
    ensures
        r.0@ == match url {
            Some(u) => u@,
            None => "about:blank"@,
        },
        r.1 == (r.0@ != "about:blank"@),
{
    let target = match url {
        Some(u) => owned(u),
        None => owned("about:blank"),
    };
    let needs = !str_eq(target.as_str(), "about:blank");
    (target, needs)
}

/// What the action log records as a call's outcome: `ok`, or
/// `error: <message>`.
pub fn outcome_text(error: Option<&str>) -> (r: String)
    ensures
        r@ == match error {
            None => "ok"@,
            Some(e) => "error: "@ + e@,
        },
{
    match error {
        None => owned("ok"),
        Some(e) => {
            let mut m = owned("error: ");
            push_str(&mut m, e);
            m
        },
    }
}

/// The tabs a `list_tabs` call shows: those the control client opened,
/// in strip order.
pub open spec fn owned_tab_filter(owned_tabs: Set<u64>) -> spec_fn(TabInfo) -> bool {
    |t: TabInfo| owned_tabs.contains(t.id)
}

/// The open tabs that belong to the control client.
pub fn visible_tabs(tabs: &Vec<TabInfo>, owned_tabs: &ClaudeTabs) -> (r: Vec<TabInfo>)
    ensures
        r@ == tabs@.filter(owned_tab_filter(owned_tabs@)),
{
    let mut out: Vec<TabInfo> = Vec::new();
    let mut i: usize = 0;
    while i < tabs.len()
        invariant
            0 <= i <= tabs@.len(),
            out@ == tabs@.take(i as int).filter(owned_tab_filter(owned_tabs@)),
        decreases tabs.len() - i,
    {
        let ghost before = out@;
        if owned_tabs.is_claude_tab(tabs[i].id) {
            let c = tabs[i].clone();
            out.push(c);
        }
        proof {
            reveal_with_fuel(Seq::<_>::filter, 1);
            let s2 = tabs@.take(i + 1);
            assert(s2.drop_last() =~= tabs@.take(i as int));
            assert(s2.last() == tabs@[i as int]);
        }
        i += 1;
    }
    assert(tabs@.take(tabs@.len() as int) =~= tabs@);
    out
}

/// One more element of a prefix holds what the shorter prefix held, and
/// that element.
proof fn lemma_take_one_more(s: Seq<u64>, k: int, x: u64)
    requires
        0 <= k < s.len(),
    ensures
        s.take(k + 1).contains(x) == (s.take(k).contains(x) || s[k] == x),
{
    let t = s.take(k);
    let t1 = s.take(k + 1);
    if s[k] == x {
        assert(t1[k] == x);
    }
    if t.contains(x) {
        let j = choose|j: int| 0 <= j < t.len() && t[j] == x;
        assert(t1[j] == x);
    }
    if t1.contains(x) && s[k] != x {
        let j = choose|j: int| 0 <= j < t1.len() && t1[j] == x;
        assert(j < k);
        assert(t[j] == x);
    }
}

impl ClaudeTabs {
    /// Forget every tab that is no longer open (closed by anyone), so no
    /// stale id lingers.
    pub fn reconcile(&mut self, open_ids: &Vec<u64>)
        ensures
            final(self)@ == old(self)@.filter(|id: u64| open_ids@.contains(id)),
    {
        let ids = self.list();
        let ghost start = old(self)@;
        let mut i: usize = 0;
        while i < ids.len()
            invariant
                0 <= i <= ids@.len(),
                ids@.to_set() == start,
                ids@.no_duplicates(),
                self@ == start.filter(
                    |id: u64| open_ids@.contains(id) || !ids@.take(i as int).contains(id),
                ),
            decreases ids.len() - i,
        {
            let id = ids[i];
            let mut found = false;
            let mut k: usize = 0;
            while k < open_ids.len()
                invariant
                    0 <= k <= open_ids@.len(),
                    found == open_ids@.take(k as int).contains(id),
                decreases open_ids.len() - k,
            {
                proof {
                    lemma_take_one_more(open_ids@, k as int, id);
                }
                if open_ids[k] == id {
                    found = true;
                }
                k += 1;
            }
            assert(open_ids@.take(open_ids@.len() as int) =~= open_ids@);
            let ghost before = self@;
            if !found {
                self.unmark(id);
            }
            proof {
                assert forall|x: u64| #![auto] ids@.take(i + 1).contains(x) == (ids@.take(i as int).contains(x)
                    || x == id) by {
                    lemma_take_one_more(ids@, i as int, x);
                }
                let p_old = |x: u64| open_ids@.contains(x) || !ids@.take(i as int).contains(x);
                let p_new = |x: u64| open_ids@.contains(x) || !ids@.take(i + 1).contains(x);
                assert(found == open_ids@.contains(id));
                assert(before == start.filter(p_old));
                assert forall|x: u64| self@.contains(x) == start.filter(p_new).contains(x) by {
                    assert(start.filter(p_new).contains(x) == (start.contains(x) && p_new(x)));
                    assert(before.contains(x) == (start.contains(x) && p_old(x)));
                    if !found {
                        assert(self@.contains(x) == (before.contains(x) && x != id));
                    } else {
                        assert(self@.contains(x) == before.contains(x));
                    }
                }
                assert(self@ =~= start.filter(p_new));
            }
            i += 1;
        }
        proof {
            assert(ids@.take(ids@.len() as int) =~= ids@);
            assert forall|x: u64| start.contains(x) implies ids@.contains(x) by {
                assert(ids@.to_set().contains(x));
            }
            assert(self@ =~= start.filter(|id: u64| open_ids@.contains(id)));
        }
    }
}

} // verus!
