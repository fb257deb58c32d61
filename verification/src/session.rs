//! Open tabs persisted across restarts, in `<app_data>/session.json`.
//! Private tabs and `data:`/`about:` pages (the new-tab page) are left out;
//! the remembered active tab is counted among the tabs that are kept.

use vstd::prelude::*;

use crate::browser::{TabInfo, TabsView};
use crate::text::{chars_of, has_prefix, join_path, owned, path_join, starts_with};

verus! {

/// One tab to restore.
#[derive(Debug)]
pub struct PersistedTab {
    pub url: String,
    pub title: String,
}

/// The tabs to restore and which of them was active.
#[derive(Debug)]
pub struct Session {
    pub tabs: Vec<PersistedTab>,
    /// Index among `tabs` of the tab that was active, if it is kept.
    pub active_index: Option<usize>,
}

impl Default for Session {
    fn default() -> (r: Self)
        ensures
            r.tabs@.len() == 0,
            r.active_index is None,
    {
        Session { tabs: Vec::new(), active_index: None }
    }
}

/// `<app_data>/session.json`.
pub open spec fn session_file(app_data: Seq<char>) -> Seq<char> {
    path_join(app_data, "session.json"@)
}

/// Where the session is saved.
pub fn session_path(app_data: &str) -> (r: String)
    ensures
        r@ == session_file(app_data@),
{
    join_path(app_data, "session.json")
}

/// Whether a tab is saved: not private, not a `data:` or `about:` page.
pub open spec fn kept(t: TabInfo) -> bool {
    !t.private && !has_prefix(t.url@, "data:"@) && !has_prefix(t.url@, "about:"@)
}

/// The (url, title) of every kept tab, in order.
pub open spec fn kept_tabs(tabs: Seq<TabInfo>) -> Seq<(Seq<char>, Seq<char>)>
    decreases tabs.len(),
{
    if tabs.len() == 0 {
        Seq::empty()
    } else if kept(tabs.last()) {
        kept_tabs(tabs.drop_last()).push((tabs.last().url@, tabs.last().title@))
    } else {
        kept_tabs(tabs.drop_last())
    }
}

/// Where the first tab with `id` is.
pub open spec fn first_position(tabs: Seq<TabInfo>, id: u64) -> Option<int> {
    if exists|i: int| 0 <= i < tabs.len() && #[trigger] tabs[i].id == id {
        Some(choose|i: int| 0 <= i < tabs.len() && tabs[i].id == id && forall|j: int| 0 <= j < i ==> tabs[j].id != id)
    } else {
        None
    }
}

/// The saved index of the active tab: its place among the kept tabs, if
/// it is kept.
pub open spec fn saved_active(tabs: Seq<TabInfo>, active: Option<u64>) -> Option<nat> {
    match active {
        Some(id) => match first_position(tabs, id) {
            Some(p) => if kept(tabs[p]) {
                Some(kept_tabs(tabs.take(p)).len())
            } else {
                None
            },
            None => None,
        },
        None => None,
    }
}

/// Whether a tab is saved.
fn keeps(t: &TabInfo) -> (r: bool)
    ensures
        r == kept(*t),
{
    let cs = chars_of(t.url.as_str());
    !t.private && !starts_with(&cs, "data:") && !starts_with(&cs, "about:")
}

/// The session to save for the tab strip `view`.
pub fn snapshot(view: &TabsView) -> (r: Session)
    ensures
        r.tabs@.map_values(|p: PersistedTab| (p.url@, p.title@)) == kept_tabs(view.tabs@),
        match r.active_index {
            Some(i) => saved_active(view.tabs@, view.active_id) == Some(i as nat),
            None => saved_active(view.tabs@, view.active_id) is None,
        },
{
    let ghost ts = view.tabs@;
    let mut out: Vec<PersistedTab> = Vec::new();
    let mut active_index: Option<usize> = None;
    let mut found = false;
    let mut i: usize = 0;
    assert(ts.take(0) =~= Seq::<TabInfo>::empty());
    while i < view.tabs.len()
        invariant
            0 <= i <= ts.len(),
            ts == view.tabs@,
            out@.map_values(|p: PersistedTab| (p.url@, p.title@)) == kept_tabs(ts.take(i as int)),
            out@.len() <= i,
            found == (match view.active_id {
                Some(id) => exists|j: int| 0 <= j < i && #[trigger] ts[j].id == id,
                None => false,
            }),
            !found ==> active_index is None,
            found ==> match active_index {
                Some(k) => saved_active(ts, view.active_id) == Some(k as nat),
                None => saved_active(ts, view.active_id) is None,
            },
        decreases ts.len() - i,
    {
        let t = &view.tabs[i];
        let keep = keeps(t);
        proof {
            assert(ts.take(i + 1).drop_last() =~= ts.take(i as int));
            assert(ts.take(i + 1).last() == ts[i as int]);
        }
        if !found {
            match view.active_id {
                Some(id) => {
                    if t.id == id {
                        found = true;
                        proof {
                            let p = first_position(ts, id);
                            assert(ts[i as int].id == id);
                            let c = choose|c: int|
                                0 <= c < ts.len() && ts[c].id == id && forall|j: int|
                                    0 <= j < c ==> ts[j].id != id;
                            assert(c == i as int) by {
                                if c < i {
                                    assert(ts[c].id == id);
                                }
                            }
                        }
                        if keep {
                            active_index = Some(out.len());
                            proof {
                                assert(out@.map_values(|p: PersistedTab| (p.url@, p.title@)).len()
                                    == out@.len());
                            }
                        }
                    }
                },
                None => {},
            }
        }
        if keep {
            let ghost before = out@;
            out.push(PersistedTab { url: owned(t.url.as_str()), title: owned(t.title.as_str()) });
            assert(out@.map_values(|p: PersistedTab| (p.url@, p.title@)) =~= before.map_values(
                |p: PersistedTab| (p.url@, p.title@),
            ).push((t.url@, t.title@)));
        }
        i += 1;
    }
    assert(ts.take(ts.len() as int) =~= ts);
    proof {
        if !found {
            match view.active_id {
                Some(id) => {
                    assert(!(exists|j: int| 0 <= j < ts.len() && #[trigger] ts[j].id == id));
                },
                None => {},
            }
        }
    }
    Session { tabs: out, active_index }
}

/// A saved session holds no private tab and no `data:` or `about:` page:
/// every saved entry is the URL and title of a public web tab.
pub proof fn lemma_saved_tabs_are_public(tabs: Seq<TabInfo>, k: int)
    requires
        0 <= k < kept_tabs(tabs).len(),
    ensures
        exists|j: int|
            0 <= j < tabs.len() && kept(#[trigger] tabs[j]) && kept_tabs(tabs)[k] == (tabs[j].url@, tabs[j].title@),
    decreases tabs.len(),
{
    let rest = tabs.drop_last();
    if kept(tabs.last()) && k == kept_tabs(rest).len() {
        assert(kept(tabs[tabs.len() - 1]));
    } else {
        lemma_saved_tabs_are_public(rest, k);
        let j = choose|j: int|
            0 <= j < rest.len() && kept(#[trigger] rest[j]) && kept_tabs(rest)[k] == (rest[j].url@, rest[j].title@);
        assert(tabs[j] == rest[j]);
    }
}

} // verus!
